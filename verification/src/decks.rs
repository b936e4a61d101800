//! The deck repository: records of the strict deck tree and the operations
//! over it — creation, child listing, direct fetches and the ancestor
//! (breadcrumb) chain.

use vstd::prelude::*;

use crate::error::{AppError, AppResult};
use crate::store::Store;

verus! {

broadcast use vstd::string::group_string_axioms;

/// A node in the deck tree. `parent_id == None` marks a root deck; archived
/// decks are hidden from listings but stay in the store.
pub struct Deck {
    pub id: i64,
    pub parent_id: Option<i64>,
    pub name: String,
    pub description: Option<String>,
    pub color: String,
    pub cover_image: Option<String>,
    pub archived: bool,
    pub created_at: String,
    pub updated_at: String,
}

/// Caller-supplied fields for a deck to be created. A cover image, if any,
/// must already be stored externally and is referenced here by its path.
pub struct NewDeck {
    pub parent_id: Option<i64>,
    pub name: String,
    pub description: Option<String>,
    pub color: String,
    pub cover_image: Option<String>,
}

/// The fields a deck listing shows.
pub struct DeckPreview {
    pub id: i64,
    pub name: String,
    pub color: String,
    pub cover_image: Option<String>,
}

/// One step of a breadcrumb trail: a deck's id and display name.
pub struct Crumb {
    pub id: i64,
    pub name: String,
}

impl Clone for Deck {
    /// Cloning a deck record yields an equal record.
    fn clone(&self) -> (r: Self)
        ensures
            r == *self,
    {
        Deck {
            id: self.id,
            parent_id: self.parent_id,
            name: self.name.clone(),
            description: match &self.description {
                Some(s) => Some(s.clone()),
                None => None,
            },
            color: self.color.clone(),
            cover_image: match &self.cover_image {
                Some(s) => Some(s.clone()),
                None => None,
            },
            archived: self.archived,
            created_at: self.created_at.clone(),
            updated_at: self.updated_at.clone(),
        }
    }
}

/// Whether some deck in `decks` carries the id `id`.
pub open spec fn contains_deck(decks: Seq<Deck>, id: i64) -> bool {
    exists|i: int| 0 <= i < decks.len() && decks[i].id == id
}

/// The index of the deck carrying `id`; meaningful only when
/// `contains_deck` holds and ids are unique.
pub open spec fn deck_index_of(decks: Seq<Deck>, id: i64) -> int {
    choose|i: int| 0 <= i < decks.len() && decks[i].id == id
}

/// The deck carrying `id`; meaningful only when `contains_deck` holds.
pub open spec fn deck_at(decks: Seq<Deck>, id: i64) -> Deck {
    decks[deck_index_of(decks, id)]
}

/// Deck ids appear in strictly increasing order (insertion order), which
/// makes every id unique.
pub open spec fn deck_ids_sorted(decks: Seq<Deck>) -> bool {
    forall|i: int, j: int| 0 <= i < j < decks.len() ==> decks[i].id < decks[j].id
}

/// A deck's parent link, if set, names an existing deck with a strictly
/// smaller id. Ids are assigned in increasing order, so every parent chain
/// strictly descends and the tree can hold no cycle.
pub open spec fn parent_link_ok(decks: Seq<Deck>, d: Deck) -> bool {
    match d.parent_id {
        Some(p) => contains_deck(decks, p) && p < d.id,
        None => true,
    }
}

/// Every deck's parent link is in order.
pub open spec fn deck_parents_ok(decks: Seq<Deck>) -> bool {
    forall|i: int| 0 <= i < decks.len() ==> parent_link_ok(decks, #[trigger] decks[i])
}

/// With sorted (hence unique) ids, `deck_at` of a deck's id is that deck.
pub proof fn lemma_deck_at_index(decks: Seq<Deck>, i: int)
    requires
        deck_ids_sorted(decks),
        0 <= i < decks.len(),
    ensures
        contains_deck(decks, decks[i].id),
        deck_index_of(decks, decks[i].id) == i,
        deck_at(decks, decks[i].id) == decks[i],
{
    assert(contains_deck(decks, decks[i].id));
    let j = deck_index_of(decks, decks[i].id);
    assert(0 <= j < decks.len() && decks[j].id == decks[i].id);
    if j < i {
        assert(decks[j].id < decks[i].id);
    } else if i < j {
        assert(decks[i].id < decks[j].id);
    }
}

/// Finds the position of the deck carrying `id`, scanning in insertion
/// order.
pub fn find_deck_index(decks: &Vec<Deck>, id: i64) -> (r: Option<usize>)
    ensures
        match r {
            Some(i) => i < decks@.len() && decks@[i as int].id == id,
            None => !contains_deck(decks@, id),
        },
{
    let mut i: usize = 0;
    while i < decks.len()
        invariant
            i <= decks@.len(),
            forall|j: int| 0 <= j < i ==> decks@[j].id != id,
        decreases decks@.len() - i,
    {
        if decks[i].id == id {
            return Some(i);
        }
        i = i + 1;
    }
    None
}

/// Why a deck creation is refused: a missing name, a parent reference that
/// names no deck, or an exhausted id space.
pub open spec fn new_deck_rejected(s: Store, deck: NewDeck) -> bool {
    ||| deck.name@.len() == 0
    ||| (deck.parent_id matches Some(p) && !contains_deck(s.decks@, p))
    ||| s.next_deck_id == i64::MAX
}

/// The created row carries exactly the caller's fields, the assigned id,
/// `archived == false`, and equal creation/update timestamps.
pub open spec fn deck_row_matches(d: Deck, id: i64, n: NewDeck) -> bool {
    &&& d.id == id
    &&& d.parent_id == n.parent_id
    &&& d.name == n.name
    &&& d.description == n.description
    &&& d.color == n.color
    &&& d.cover_image == n.cover_image
    &&& d.archived == false
    &&& d.created_at == d.updated_at
}

/// Inserts one deck row and returns its assigned id.
///
/// The name must be non-empty; a parent reference must name an existing
/// deck, which keeps the tree acyclic (the parent's id is always smaller).
/// On any refusal the store is left untouched.
pub fn new_deck(store: &mut Store, deck: NewDeck) -> (r: AppResult<i64>)
    requires
        old(store).wf(),
    ensures
        final(store).wf(),
        r is Err <==> new_deck_rejected(*old(store), deck),
        r matches Err(e) ==> {
            &&& *final(store) == *old(store)
            &&& (e is InvalidInput <==> deck.name@.len() == 0)
            &&& (e is StorageFailure <==> deck.name@.len() > 0)
        },
        r matches Ok(id) ==> {
            &&& id == old(store).next_deck_id
            &&& final(store).next_deck_id == old(store).next_deck_id + 1
            &&& final(store).decks@.len() == old(store).decks@.len() + 1
            &&& final(store).decks@.drop_last() == old(store).decks@
            &&& deck_row_matches(final(store).decks@.last(), id, deck)
            &&& final(store).questions@ == old(store).questions@
            &&& final(store).multi_choice_questions@ == old(store).multi_choice_questions@
            &&& final(store).multi_choice_answers@ == old(store).multi_choice_answers@
            &&& final(store).next_question_id == old(store).next_question_id
            &&& final(store).next_multi_choice_question_id
                == old(store).next_multi_choice_question_id
            &&& final(store).next_multi_choice_answer_id
                == old(store).next_multi_choice_answer_id
        },
{
    if deck.name.as_str().is_empty() {
        return AppError::new("deck name must not be empty");
    }
    if let Some(p) = deck.parent_id {
        if find_deck_index(&store.decks, p).is_none() {
            return Err(
                AppError::StorageFailure("parent deck does not exist".to_string()),
            );
        }
    }
    if store.next_deck_id == i64::MAX {
        return Err(AppError::StorageFailure("deck id space exhausted".to_string()));
    }
    let id = store.next_deck_id;
    let timestamp = crate::clock::now_rfc3339();
    let row = Deck {
        id,
        parent_id: deck.parent_id,
        name: deck.name,
        description: deck.description,
        color: deck.color,
        cover_image: deck.cover_image,
        archived: false,
        created_at: timestamp.clone(),
        updated_at: timestamp,
    };
    let ghost old_decks = store.decks@;
    store.decks.push(row);
    store.next_deck_id = id + 1;
    proof {
        assert(store.decks@.drop_last() =~= old_decks);
        assert forall|i: int| 0 <= i < store.decks@.len() implies parent_link_ok(
            store.decks@,
            #[trigger] store.decks@[i],
        ) by {
            if i < old_decks.len() {
                assert(parent_link_ok(old_decks, old_decks[i]));
            }
            if let Some(p) = store.decks@[i].parent_id {
                let w = choose|k: int| 0 <= k < old_decks.len() && old_decks[k].id == p;
                assert(store.decks@[w].id == p);
            }
        }
        assert forall|i: int| 0 <= i < store.questions@.len() implies contains_deck(
            store.decks@,
            (#[trigger] store.questions@[i]).deck_id,
        ) by {
            let w = choose|k: int| 0 <= k < old_decks.len()
                && old_decks[k].id == store.questions@[i].deck_id;
            assert(store.decks@[w].id == store.questions@[i].deck_id);
        }
    }
    Ok(id)
}

/// The preview a listing shows of a deck row.
pub open spec fn deck_preview_of(d: Deck) -> DeckPreview {
    DeckPreview { id: d.id, name: d.name, color: d.color, cover_image: d.cover_image }
}

/// Whether a listing under `parent` shows the deck: not archived, and its
/// parent link equal to the filter — `None` selects root decks only, never
/// the whole tree.
pub open spec fn deck_listed(d: Deck, parent: Option<i64>) -> bool {
    !d.archived && d.parent_id == parent
}

/// What a listing returns: the previews of the listed decks, in insertion
/// order.
pub open spec fn list_children_spec(decks: Seq<Deck>, parent: Option<i64>) -> Seq<
    DeckPreview,
> {
    decks.filter(|d: Deck| deck_listed(d, parent)).map_values(|d: Deck| deck_preview_of(d))
}

/// Lists the non-archived children of the given deck, or the non-archived
/// root decks when no deck is given.
pub fn get_decks(store: &Store, id: Option<i64>) -> (r: AppResult<Vec<DeckPreview>>)
    ensures
        r matches Ok(v) && v@ == list_children_spec(store.decks@, id),
{
    let ghost pred = |d: Deck| deck_listed(d, id);
    let ghost f = |d: Deck| deck_preview_of(d);
    let mut out: Vec<DeckPreview> = Vec::new();
    let mut i: usize = 0;
    proof {
        assert(store.decks@.take(0) =~= Seq::<Deck>::empty());
        assert(Seq::<Deck>::empty().filter(pred) =~= Seq::<Deck>::empty()) by {
            reveal(Seq::filter);
        }
        assert(out@ =~= list_children_spec(store.decks@.take(0), id));
    }
    while i < store.decks.len()
        invariant
            i <= store.decks@.len(),
            out@ == list_children_spec(store.decks@.take(i as int), id),
            pred == (|d: Deck| deck_listed(d, id)),
            f == (|d: Deck| deck_preview_of(d)),
        decreases store.decks@.len() - i,
    {
        let same_parent = match (store.decks[i].parent_id, id) {
            (Option::None, Option::None) => true,
            (Option::Some(a), Option::Some(b)) => a == b,
            _ => false,
        };
        let ghost prev = store.decks@.take(i as int);
        let ghost d = store.decks@[i as int];
        proof {
            assert(store.decks@.take(i as int + 1) =~= prev.push(d));
            prev.lemma_filter_push(d, pred);
            assert(prev.filter(pred).push(d).map_values(f) =~= prev.filter(pred).map_values(
                f,
            ).push(f(d)));
        }
        if !store.decks[i].archived && same_parent {
            let preview = DeckPreview {
                id: store.decks[i].id,
                name: store.decks[i].name.clone(),
                color: store.decks[i].color.clone(),
                cover_image: match &store.decks[i].cover_image {
                    Some(s) => Some(s.clone()),
                    None => None,
                },
            };
            proof {
                assert(pred(d));
            }
            out.push(preview);
        } else {
            proof {
                assert(!pred(d));
            }
        }
        i = i + 1;
    }
    proof {
        assert(store.decks@.take(i as int) =~= store.decks@);
    }
    Ok(out)
}

/// Law: a listing only shows decks that match its parent filter — a root
/// listing shows only parentless decks, a listing under X only decks whose
/// parent is X — and only unarchived ones.
pub proof fn lemma_list_children_parent(decks: Seq<Deck>, parent: Option<i64>, k: int)
    requires
        0 <= k < list_children_spec(decks, parent).len(),
    ensures
        exists|i: int|
            {
                &&& 0 <= i < decks.len()
                &&& (#[trigger] decks[i]).parent_id == parent
                &&& !decks[i].archived
                &&& list_children_spec(decks, parent)[k] == deck_preview_of(decks[i])
            },
{
    let pred = |d: Deck| deck_listed(d, parent);
    let filtered = decks.filter(pred);
    decks.lemma_filter_pred(pred, k);
    assert(filtered.contains(filtered[k]));
    decks.lemma_filter_contains_rev(pred, filtered[k]);
    let i = choose|i: int| 0 <= i < decks.len() && decks[i] == filtered[k];
    assert(list_children_spec(decks, parent)[k] == deck_preview_of(decks[i]));
}

/// Law: an archived deck is hidden from every listing, yet it stays in the
/// store and remains fetchable by its id.
pub proof fn lemma_archived_deck_hidden(decks: Seq<Deck>, i: int, parent: Option<i64>)
    requires
        deck_ids_sorted(decks),
        0 <= i < decks.len(),
        decks[i].archived,
    ensures
        contains_deck(decks, decks[i].id),
        forall|k: int|
            0 <= k < list_children_spec(decks, parent).len()
                ==> (#[trigger] list_children_spec(decks, parent)[k]).id != decks[i].id,
{
    assert(contains_deck(decks, decks[i].id));
    assert forall|k: int|
        0 <= k < list_children_spec(decks, parent).len() implies (#[trigger] list_children_spec(
        decks,
        parent,
    )[k]).id != decks[i].id by {
        lemma_list_children_parent(decks, parent, k);
        let j = choose|j: int|
            {
                &&& 0 <= j < decks.len()
                &&& (#[trigger] decks[j]).parent_id == parent
                &&& !decks[j].archived
                &&& list_children_spec(decks, parent)[k] == deck_preview_of(decks[j])
            };
        if decks[j].id == decks[i].id {
            if i < j {
                assert(decks[i].id < decks[j].id);
            } else if j < i {
                assert(decks[j].id < decks[i].id);
            }
        }
    }
}

/// Fetches the full record of the deck carrying `id`, archived or not.
pub fn get_deck(store: &Store, id: i64) -> (r: AppResult<Deck>)
    requires
        store.wf(),
    ensures
        match r {
            Ok(d) => contains_deck(store.decks@, id) && d == deck_at(store.decks@, id),
            Err(e) => e is NotFound && !contains_deck(store.decks@, id),
        },
{
    match find_deck_index(&store.decks, id) {
        Some(i) => {
            proof {
                lemma_deck_at_index(store.decks@, i as int);
            }
            Ok(store.decks[i].clone())
        },
        None => Err(AppError::NotFound),
    }
}

/// Fetches just the name of the deck carrying `id`.
pub fn get_deck_name(store: &Store, id: i64) -> (r: AppResult<String>)
    requires
        store.wf(),
    ensures
        match r {
            Ok(name) => contains_deck(store.decks@, id) && name == deck_at(
                store.decks@,
                id,
            ).name,
            Err(e) => e is NotFound && !contains_deck(store.decks@, id),
        },
{
    match find_deck_index(&store.decks, id) {
        Some(i) => {
            proof {
                lemma_deck_at_index(store.decks@, i as int);
            }
            Ok(store.decks[i].name.clone())
        },
        None => Err(AppError::NotFound),
    }
}

/// One step of a breadcrumb chain is in order: the crumb names an existing
/// deck, carries its name, and the deck's parent link leads exactly to the
/// next crumb — the last crumb's deck being a root.
pub open spec fn crumb_step_ok(decks: Seq<Deck>, crumbs: Seq<Crumb>, i: int) -> bool {
    &&& contains_deck(decks, crumbs[i].id)
    &&& crumbs[i].name == deck_at(decks, crumbs[i].id).name
    &&& if i == crumbs.len() - 1 {
        deck_at(decks, crumbs[i].id).parent_id is None
    } else {
        deck_at(decks, crumbs[i].id).parent_id == Some(crumbs[i + 1].id)
    }
}

/// A complete breadcrumb chain for the deck `id`, in child-to-root order:
/// it starts at `id`, each crumb's deck points to the next crumb, and the
/// chain ends at a root deck.
pub open spec fn crumbs_ok(decks: Seq<Deck>, id: i64, crumbs: Seq<Crumb>) -> bool {
    &&& crumbs.len() >= 1
    &&& crumbs[0].id == id
    &&& forall|i: int| 0 <= i < crumbs.len() ==> #[trigger] crumb_step_ok(decks, crumbs, i)
}

/// Walks from the deck `id` up to its root, recording one crumb per step,
/// in child-to-root order.
///
/// Every parent link names a deck with a strictly smaller id (see
/// `parent_link_ok`), so the walk advances to a smaller id at each step and
/// provably halts: the hierarchy can hold no cycle, and no depth guard is
/// needed.
pub fn get_deck_crumbs(store: &Store, id: i64) -> (r: AppResult<Vec<Crumb>>)
    requires
        store.wf(),
    ensures
        match r {
            Ok(crumbs) => contains_deck(store.decks@, id) && crumbs_ok(
                store.decks@,
                id,
                crumbs@,
            ),
            Err(e) => e is NotFound && !contains_deck(store.decks@, id),
        },
{
    let mut crumbs: Vec<Crumb> = Vec::new();
    let mut cur: usize = match find_deck_index(&store.decks, id) {
        Some(i) => i,
        None => {
            return Err(AppError::NotFound);
        },
    };
    loop
        invariant
            store.wf(),
            cur < store.decks@.len(),
            crumbs@.len() == 0 ==> store.decks@[cur as int].id == id,
            crumbs@.len() > 0 ==> crumbs@[0].id == id,
            forall|i: int|
                0 <= i < crumbs@.len() - 1 ==> #[trigger] crumb_step_ok(
                    store.decks@,
                    crumbs@,
                    i,
                ),
            crumbs@.len() > 0 ==> {
                let last = crumbs@.len() - 1;
                &&& contains_deck(store.decks@, crumbs@[last].id)
                &&& crumbs@[last].name == deck_at(store.decks@, crumbs@[last].id).name
                &&& deck_at(store.decks@, crumbs@[last].id).parent_id == Some(
                    store.decks@[cur as int].id,
                )
            },
        decreases store.decks@[cur as int].id,
    {
        let ghost prev = crumbs@;
        proof {
            lemma_deck_at_index(store.decks@, cur as int);
        }
        crumbs.push(
            Crumb { id: store.decks[cur].id, name: store.decks[cur].name.clone() },
        );
        proof {
            assert forall|i: int| 0 <= i < crumbs@.len() - 1 implies #[trigger] crumb_step_ok(
                store.decks@,
                crumbs@,
                i,
            ) by {
                if i < prev.len() - 1 {
                    assert(crumb_step_ok(store.decks@, prev, i));
                }
            }
        }
        match store.decks[cur].parent_id {
            Some(p) => {
                proof {
                    assert(parent_link_ok(store.decks@, store.decks@[cur as int]));
                }
                cur = match find_deck_index(&store.decks, p) {
                    Some(j) => j,
                    None => vstd::pervasive::unreached(),
                };
            },
            None => {
                proof {
                    assert(crumb_step_ok(store.decks@, crumbs@, crumbs@.len() - 1));
                    if prev.len() == 0 {
                        assert(crumbs@[0].id == id);
                    } else {
                        assert(crumbs@[0] == prev[0]);
                    }
                    assert(crumbs_ok(store.decks@, id, crumbs@));
                    assert(contains_deck(store.decks@, id)) by {
                        assert(crumb_step_ok(store.decks@, crumbs@, 0));
                    }
                }
                return Ok(crumbs);
            },
        }
    }
}

/// Along a well-linked chain, each crumb's id is strictly smaller than the
/// one before it.
proof fn lemma_crumbs_descend(decks: Seq<Deck>, id: i64, crumbs: Seq<Crumb>, i: int, j: int)
    requires
        deck_parents_ok(decks),
        crumbs_ok(decks, id, crumbs),
        0 <= i < j < crumbs.len(),
    ensures
        crumbs[j].id < crumbs[i].id,
    decreases j - i,
{
    assert(crumb_step_ok(decks, crumbs, i));
    let idx = deck_index_of(decks, crumbs[i].id);
    assert(0 <= idx < decks.len() && decks[idx].id == crumbs[i].id);
    assert(parent_link_ok(decks, decks[idx]));
    if i + 1 < j {
        lemma_crumbs_descend(decks, id, crumbs, i + 1, j);
    }
}

/// Law: a breadcrumb chain never revisits a deck — ids strictly descend
/// along it, so no crumb, in particular not the starting one, appears
/// twice.
pub proof fn lemma_crumbs_never_repeat(decks: Seq<Deck>, id: i64, crumbs: Seq<Crumb>)
    requires
        deck_parents_ok(decks),
        crumbs_ok(decks, id, crumbs),
    ensures
        forall|i: int, j: int| 0 <= i < j < crumbs.len() ==> crumbs[j].id < crumbs[i].id,
{
    assert forall|i: int, j: int|
        0 <= i < j < crumbs.len() implies crumbs[j].id < crumbs[i].id by {
        lemma_crumbs_descend(decks, id, crumbs, i, j);
    }
}

/// Law: a breadcrumb chain always ends at a root deck — its last crumb's
/// deck has no parent — and the chain of a root deck is exactly that deck
/// alone.
pub proof fn lemma_crumbs_end_at_root(decks: Seq<Deck>, id: i64, crumbs: Seq<Crumb>)
    requires
        crumbs_ok(decks, id, crumbs),
    ensures
        deck_at(decks, crumbs.last().id).parent_id is None,
        deck_at(decks, id).parent_id is None ==> crumbs.len() == 1 && crumbs[0].id == id,
{
    assert(crumb_step_ok(decks, crumbs, crumbs.len() - 1));
    if deck_at(decks, id).parent_id is None && crumbs.len() > 1 {
        assert(crumb_step_ok(decks, crumbs, 0));
        assert(false);
    }
}

} // verus!
