//! The question repository: the type-tagged question envelope, the worked
//! multiple-choice detail schema, and the operations over them.

use vstd::prelude::*;

use crate::decks::{contains_deck, find_deck_index, Deck};
use crate::error::{AppError, AppResult};
use crate::store::Store;

verus! {

broadcast use vstd::string::group_string_axioms;

/// The closed family of question variants. Only `MultiChoice` owns a detail
/// schema so far; the other tags persist just their envelope.
#[derive(Clone, Copy, PartialEq, Eq, Structural, Debug)]
pub enum QuestionType {
    MultiChoice,
    Binary,
    FillBlank,
    ShortAnswer,
    LongAnswer,
    Match,
    Sequence,
    WordDrag,
    Dropdown,
    Numeric,
    HotSpot,
    Code,
    Math,
    Geolocation,
}

/// The snake_case tag of each variant. It must equal the name prefix of the
/// variant's detail table.
pub open spec fn type_name_spec(t: QuestionType) -> Seq<char> {
    match t {
        QuestionType::MultiChoice => "multi_choice"@,
        QuestionType::Binary => "binary"@,
        QuestionType::FillBlank => "fill_blank"@,
        QuestionType::ShortAnswer => "short_answer"@,
        QuestionType::LongAnswer => "long_answer"@,
        QuestionType::Match => "match"@,
        QuestionType::Sequence => "sequence"@,
        QuestionType::WordDrag => "word_drag"@,
        QuestionType::Dropdown => "dropdown"@,
        QuestionType::Numeric => "numeric"@,
        QuestionType::HotSpot => "hotspot"@,
        QuestionType::Code => "code"@,
        QuestionType::Math => "math"@,
        QuestionType::Geolocation => "geolocation"@,
    }
}

impl QuestionType {
    /// The display/table tag of this variant. The match is exhaustive, so a
    /// newly added variant cannot skip this dispatch.
    pub fn name(&self) -> (r: String)
        ensures
            r@ == type_name_spec(*self),
    {
        match self {
            QuestionType::MultiChoice => "multi_choice".to_string(),
            QuestionType::Binary => "binary".to_string(),
            QuestionType::FillBlank => "fill_blank".to_string(),
            QuestionType::ShortAnswer => "short_answer".to_string(),
            QuestionType::LongAnswer => "long_answer".to_string(),
            QuestionType::Match => "match".to_string(),
            QuestionType::Sequence => "sequence".to_string(),
            QuestionType::WordDrag => "word_drag".to_string(),
            QuestionType::Dropdown => "dropdown".to_string(),
            QuestionType::Numeric => "numeric".to_string(),
            QuestionType::HotSpot => "hotspot".to_string(),
            QuestionType::Code => "code".to_string(),
            QuestionType::Math => "math".to_string(),
            QuestionType::Geolocation => "geolocation".to_string(),
        }
    }
}

/// The type-tagged envelope every question variant shares.
pub struct Question {
    pub id: i64,
    pub deck_id: i64,
    pub question_type: QuestionType,
    pub title: String,
    pub content: Option<String>,
    pub archived: bool,
    pub created_at: String,
    pub updated_at: String,
}

/// The multiple-choice detail record, one per `MultiChoice` question.
pub struct MultiChoiceQuestion {
    pub id: i64,
    pub question_id: i64,
    pub layout_cols: i32,
    pub single_answer: bool,
}

/// One answer option under a multiple-choice detail record.
pub struct MultiChoiceAnswer {
    pub id: i64,
    pub question_id: i64,
    pub content: String,
    pub correct: bool,
}

/// Caller-supplied fields for a question envelope.
pub struct NewQuestion {
    pub deck_id: i64,
    pub question_type: QuestionType,
    pub title: String,
    pub content: Option<String>,
}

/// Caller-supplied fields for one answer option.
pub struct NewMultiChoiceAnswer {
    pub content: Option<String>,
    pub correct: bool,
}

/// Caller-supplied fields for the multiple-choice detail and its answers.
pub struct NewMultiChoiceQuestion {
    pub layout_cols: i32,
    pub single_answer: bool,
    pub answers: Vec<NewMultiChoiceAnswer>,
}

/// The fields a question listing shows; `question_type` carries the
/// variant's display tag.
pub struct QuestionPreview {
    pub id: i64,
    pub question_type: String,
    pub title: String,
}

impl Clone for Question {
    /// Cloning a question record yields an equal record.
    fn clone(&self) -> (r: Self)
        ensures
            r == *self,
    {
        Question {
            id: self.id,
            deck_id: self.deck_id,
            question_type: self.question_type,
            title: self.title.clone(),
            content: match &self.content {
                Some(s) => Some(s.clone()),
                None => None,
            },
            archived: self.archived,
            created_at: self.created_at.clone(),
            updated_at: self.updated_at.clone(),
        }
    }
}

/// Whether some question in `questions` carries the id `id`.
pub open spec fn contains_question(questions: Seq<Question>, id: i64) -> bool {
    exists|i: int| 0 <= i < questions.len() && questions[i].id == id
}

/// The index of the question carrying `id`; meaningful only when
/// `contains_question` holds and ids are unique.
pub open spec fn question_index_of(questions: Seq<Question>, id: i64) -> int {
    choose|i: int| 0 <= i < questions.len() && questions[i].id == id
}

/// The question carrying `id`; meaningful only when `contains_question`
/// holds.
pub open spec fn question_at(questions: Seq<Question>, id: i64) -> Question {
    questions[question_index_of(questions, id)]
}

/// Question ids appear in strictly increasing order, which makes them
/// unique.
pub open spec fn question_ids_sorted(questions: Seq<Question>) -> bool {
    forall|i: int, j: int| 0 <= i < j < questions.len() ==> questions[i].id < questions[j].id
}

/// With sorted (hence unique) ids, `question_at` of a question's id is that
/// question.
pub proof fn lemma_question_at_index(questions: Seq<Question>, i: int)
    requires
        question_ids_sorted(questions),
        0 <= i < questions.len(),
    ensures
        contains_question(questions, questions[i].id),
        question_index_of(questions, questions[i].id) == i,
        question_at(questions, questions[i].id) == questions[i],
{
    assert(contains_question(questions, questions[i].id));
    let j = question_index_of(questions, questions[i].id);
    assert(0 <= j < questions.len() && questions[j].id == questions[i].id);
    if j < i {
        assert(questions[j].id < questions[i].id);
    } else if i < j {
        assert(questions[i].id < questions[j].id);
    }
}

/// Each question is owned by an existing deck.
pub open spec fn contains_deck_of_questions(questions: Seq<Question>, decks: Seq<Deck>) -> bool {
    forall|i: int| 0 <= i < questions.len()
        ==> contains_deck(decks, (#[trigger] questions[i]).deck_id)
}

/// Whether some multiple-choice detail record carries the id `id`.
pub open spec fn contains_detail(details: Seq<MultiChoiceQuestion>, id: i64) -> bool {
    exists|i: int| 0 <= i < details.len() && details[i].id == id
}

/// Detail ids appear in strictly increasing order, which makes them unique.
pub open spec fn detail_ids_sorted(details: Seq<MultiChoiceQuestion>) -> bool {
    forall|i: int, j: int| 0 <= i < j < details.len() ==> details[i].id < details[j].id
}

/// Answer ids appear in strictly increasing order, which makes them unique.
pub open spec fn answer_ids_sorted(answers: Seq<MultiChoiceAnswer>) -> bool {
    forall|i: int, j: int| 0 <= i < j < answers.len() ==> answers[i].id < answers[j].id
}

/// Each detail record belongs to an existing `MultiChoice` question, and no
/// question owns two detail records.
pub open spec fn details_linked(
    details: Seq<MultiChoiceQuestion>,
    questions: Seq<Question>,
) -> bool {
    &&& forall|i: int| 0 <= i < details.len() ==> {
        &&& contains_question(questions, (#[trigger] details[i]).question_id)
        &&& question_at(questions, details[i].question_id).question_type
            == QuestionType::MultiChoice
    }
    &&& forall|i: int, j: int| 0 <= i < j < details.len()
        ==> details[i].question_id != details[j].question_id
}

/// Each answer row belongs to an existing detail record.
pub open spec fn answers_linked(
    answers: Seq<MultiChoiceAnswer>,
    details: Seq<MultiChoiceQuestion>,
) -> bool {
    forall|i: int| 0 <= i < answers.len()
        ==> contains_detail(details, (#[trigger] answers[i]).question_id)
}

/// Finds the position of the question carrying `id`.
pub fn find_question_index(questions: &Vec<Question>, id: i64) -> (r: Option<usize>)
    ensures
        match r {
            Some(i) => i < questions@.len() && questions@[i as int].id == id,
            None => !contains_question(questions@, id),
        },
{
    let mut i: usize = 0;
    while i < questions.len()
        invariant
            i <= questions@.len(),
            forall|j: int| 0 <= j < i ==> questions@[j].id != id,
        decreases questions@.len() - i,
    {
        if questions[i].id == id {
            return Some(i);
        }
        i = i + 1;
    }
    None
}

/// Why an envelope insert is refused: a missing title, a deck reference
/// that names no deck, or an exhausted id space.
pub open spec fn new_question_rejected(s: Store, q: NewQuestion) -> bool {
    ||| q.title@.len() == 0
    ||| !contains_deck(s.decks@, q.deck_id)
    ||| s.next_question_id == i64::MAX
}

/// The created envelope row carries exactly the caller's fields, the
/// assigned id, `archived == false`, and equal timestamps.
pub open spec fn question_row_matches(row: Question, id: i64, q: NewQuestion) -> bool {
    &&& row.id == id
    &&& row.deck_id == q.deck_id
    &&& row.question_type == q.question_type
    &&& row.title == q.title
    &&& row.content == q.content
    &&& row.archived == false
    &&& row.created_at == row.updated_at
}

/// Inserts one question envelope row and returns its assigned id. Used by
/// the type-specific creators; a variant with a detail table should be
/// created through its own creator, not through this alone.
pub fn new_question(store: &mut Store, question: &NewQuestion) -> (r: AppResult<i64>)
    requires
        old(store).wf(),
    ensures
        final(store).wf(),
        r is Err <==> new_question_rejected(*old(store), *question),
        r matches Err(e) ==> {
            &&& *final(store) == *old(store)
            &&& (e is InvalidInput <==> question.title@.len() == 0)
            &&& (e is StorageFailure <==> question.title@.len() > 0)
        },
        r matches Ok(id) ==> {
            &&& id == old(store).next_question_id
            &&& final(store).next_question_id == old(store).next_question_id + 1
            &&& final(store).questions@.len() == old(store).questions@.len() + 1
            &&& final(store).questions@.drop_last() == old(store).questions@
            &&& question_row_matches(final(store).questions@.last(), id, *question)
            &&& final(store).decks@ == old(store).decks@
            &&& final(store).multi_choice_questions@ == old(store).multi_choice_questions@
            &&& final(store).multi_choice_answers@ == old(store).multi_choice_answers@
            &&& final(store).next_deck_id == old(store).next_deck_id
            &&& final(store).next_multi_choice_question_id
                == old(store).next_multi_choice_question_id
            &&& final(store).next_multi_choice_answer_id
                == old(store).next_multi_choice_answer_id
        },
{
    if question.title.as_str().is_empty() {
        return AppError::new("question title must not be empty");
    }
    if find_deck_index(&store.decks, question.deck_id).is_none() {
        return Err(AppError::StorageFailure("deck does not exist".to_string()));
    }
    if store.next_question_id == i64::MAX {
        return Err(AppError::StorageFailure("question id space exhausted".to_string()));
    }
    let id = store.next_question_id;
    let timestamp = crate::clock::now_rfc3339();
    let row = Question {
        id,
        deck_id: question.deck_id,
        question_type: question.question_type,
        title: question.title.clone(),
        content: match &question.content {
            Some(s) => Some(s.clone()),
            None => None,
        },
        archived: false,
        created_at: timestamp.clone(),
        updated_at: timestamp,
    };
    let ghost old_questions = store.questions@;
    store.questions.push(row);
    store.next_question_id = id + 1;
    proof {
        assert(store.questions@.drop_last() =~= old_questions);
        assert forall|i: int| 0 <= i < store.questions@.len() implies contains_deck(
            store.decks@,
            (#[trigger] store.questions@[i]).deck_id,
        ) by {
            if i < old_questions.len() {
                assert(contains_deck(store.decks@, old_questions[i].deck_id));
            }
        }
        assert forall|i: int| 0 <= i < store.multi_choice_questions@.len() implies {
            &&& contains_question(
                store.questions@,
                (#[trigger] store.multi_choice_questions@[i]).question_id,
            )
            &&& question_at(
                store.questions@,
                store.multi_choice_questions@[i].question_id,
            ).question_type == QuestionType::MultiChoice
        } by {
            let qid = store.multi_choice_questions@[i].question_id;
            assert(contains_question(old_questions, qid));
            let w = choose|k: int|
                0 <= k < old_questions.len() && old_questions[k].id == qid;
            lemma_question_at_index(old_questions, w);
            lemma_question_at_index(store.questions@, w);
        }
    }
    Ok(id)
}

/// Fetches the full envelope of the question carrying `id`, archived or
/// not.
pub fn get_question(store: &Store, id: i64) -> (r: AppResult<Question>)
    requires
        store.wf(),
    ensures
        match r {
            Ok(q) => contains_question(store.questions@, id) && q == question_at(
                store.questions@,
                id,
            ),
            Err(e) => e is NotFound && !contains_question(store.questions@, id),
        },
{
    match find_question_index(&store.questions, id) {
        Some(i) => {
            proof {
                lemma_question_at_index(store.questions@, i as int);
            }
            Ok(store.questions[i].clone())
        },
        None => Err(AppError::NotFound),
    }
}

/// Whether a listing for `deck_id` shows the question: owned by that deck
/// and not archived.
pub open spec fn question_listed(q: Question, deck_id: i64) -> bool {
    !q.archived && q.deck_id == deck_id
}

/// The question rows a listing for `deck_id` draws from, in insertion
/// order.
pub open spec fn listed_questions(questions: Seq<Question>, deck_id: i64) -> Seq<Question> {
    questions.filter(|q: Question| question_listed(q, deck_id))
}

/// The preview shows the row's id and title, and the display tag of its
/// variant.
pub open spec fn question_preview_matches(q: Question, p: QuestionPreview) -> bool {
    &&& p.id == q.id
    &&& p.question_type@ == type_name_spec(q.question_type)
    &&& p.title == q.title
}

/// Lists the non-archived questions owned by `deck_id`, in insertion
/// order, as previews.
pub fn get_questions(store: &Store, deck_id: i64) -> (r: AppResult<Vec<QuestionPreview>>)
    ensures
        r matches Ok(v) && {
            &&& v@.len() == listed_questions(store.questions@, deck_id).len()
            &&& forall|k: int|
                0 <= k < v@.len() ==> question_preview_matches(
                    listed_questions(store.questions@, deck_id)[k],
                    #[trigger] v@[k],
                )
        },
{
    let ghost pred = |q: Question| question_listed(q, deck_id);
    let mut out: Vec<QuestionPreview> = Vec::new();
    let mut i: usize = 0;
    proof {
        assert(store.questions@.take(0) =~= Seq::<Question>::empty());
        assert(Seq::<Question>::empty().filter(pred) =~= Seq::<Question>::empty()) by {
            reveal(Seq::filter);
        }
    }
    while i < store.questions.len()
        invariant
            i <= store.questions@.len(),
            pred == (|q: Question| question_listed(q, deck_id)),
            out@.len() == store.questions@.take(i as int).filter(pred).len(),
            forall|k: int|
                0 <= k < out@.len() ==> question_preview_matches(
                    store.questions@.take(i as int).filter(pred)[k],
                    #[trigger] out@[k],
                ),
        decreases store.questions@.len() - i,
    {
        let ghost prev = store.questions@.take(i as int);
        let ghost q = store.questions@[i as int];
        proof {
            assert(store.questions@.take(i as int + 1) =~= prev.push(q));
            prev.lemma_filter_push(q, pred);
        }
        if !store.questions[i].archived && store.questions[i].deck_id == deck_id {
            let preview = QuestionPreview {
                id: store.questions[i].id,
                question_type: store.questions[i].question_type.name(),
                title: store.questions[i].title.clone(),
            };
            proof {
                assert(pred(q));
            }
            out.push(preview);
        } else {
            proof {
                assert(!pred(q));
            }
        }
        i = i + 1;
    }
    proof {
        assert(store.questions@.take(i as int) =~= store.questions@);
    }
    Ok(out)
}

/// How many of the proposed answers are marked correct.
pub open spec fn count_correct(answers: Seq<NewMultiChoiceAnswer>) -> nat {
    answers.filter(|a: NewMultiChoiceAnswer| a.correct).len()
}

/// Every proposed answer carries its text.
pub open spec fn answers_complete(answers: Seq<NewMultiChoiceAnswer>) -> bool {
    forall|i: int| 0 <= i < answers.len() ==> (#[trigger] answers[i]).content is Some
}

/// The caller-side reasons a multiple-choice creation is refused: a
/// missing title, an envelope tag other than `MultiChoice`, a non-positive
/// column count, an answer without text, or more than one correct answer
/// when a single one was promised.
pub open spec fn new_mcq_invalid(q: NewQuestion, m: NewMultiChoiceQuestion) -> bool {
    ||| q.title@.len() == 0
    ||| !(q.question_type == QuestionType::MultiChoice)
    ||| m.layout_cols <= 0
    ||| !answers_complete(m.answers@)
    ||| (m.single_answer && count_correct(m.answers@) > 1)
}

/// The store-side reasons a multiple-choice creation is refused: a deck
/// reference that names no deck, or an exhausted id space in any of the
/// three tables touched.
pub open spec fn new_mcq_unstorable(s: Store, q: NewQuestion, m: NewMultiChoiceQuestion) -> bool {
    ||| !contains_deck(s.decks@, q.deck_id)
    ||| s.next_question_id == i64::MAX
    ||| s.next_multi_choice_question_id == i64::MAX
    ||| m.answers@.len() > i64::MAX - s.next_multi_choice_answer_id
}

/// What a successful multiple-choice creation leaves behind: one envelope
/// row, one detail row under it, and one answer row per proposed answer,
/// in order, with consecutively assigned ids — and nothing else changed.
pub open spec fn mcq_created(
    old_s: Store,
    new_s: Store,
    q: NewQuestion,
    m: NewMultiChoiceQuestion,
) -> bool {
    let qid = old_s.next_question_id;
    let did = old_s.next_multi_choice_question_id;
    let base = old_s.next_multi_choice_answer_id;
    &&& new_s.questions@.len() == old_s.questions@.len() + 1
    &&& new_s.questions@.drop_last() == old_s.questions@
    &&& question_row_matches(new_s.questions@.last(), qid, q)
    &&& new_s.multi_choice_questions@.len() == old_s.multi_choice_questions@.len() + 1
    &&& new_s.multi_choice_questions@.drop_last() == old_s.multi_choice_questions@
    &&& {
        let d = new_s.multi_choice_questions@.last();
        &&& d.id == did
        &&& d.question_id == qid
        &&& d.layout_cols == m.layout_cols
        &&& d.single_answer == m.single_answer
    }
    &&& new_s.multi_choice_answers@.len() == old_s.multi_choice_answers@.len()
        + m.answers@.len()
    &&& new_s.multi_choice_answers@.subrange(0, old_s.multi_choice_answers@.len() as int)
        == old_s.multi_choice_answers@
    &&& forall|k: int|
        0 <= k < m.answers@.len() ==> {
            let a = #[trigger] new_s.multi_choice_answers@[old_s.multi_choice_answers@.len()
                + k];
            &&& a.id == base + k
            &&& a.question_id == did
            &&& (m.answers@[k].content matches Some(c) && a.content == c)
            &&& a.correct == m.answers@[k].correct
        }
    &&& new_s.decks@ == old_s.decks@
    &&& new_s.next_deck_id == old_s.next_deck_id
    &&& new_s.next_question_id == old_s.next_question_id + 1
    &&& new_s.next_multi_choice_question_id == old_s.next_multi_choice_question_id + 1
    &&& new_s.next_multi_choice_answer_id == old_s.next_multi_choice_answer_id
        + m.answers@.len()
}

/// Creates a multiple-choice question as one logical transaction: the
/// envelope row, the detail row under it, and one answer row per proposed
/// answer. The operation is all or nothing: every refusal is checked
/// before the first write, so a failed call leaves the store exactly as it
/// was.
///
/// When `single_answer` is promised, a proposal with more than one answer
/// marked correct is rejected as invalid input: the sibling invariant is
/// enforced at write time, not left to the display layer.
#[verifier::loop_isolation(false)]
#[verifier::rlimit(100)]
pub fn new_multi_choice_question(
    store: &mut Store,
    question: NewQuestion,
    multi_choice_question: NewMultiChoiceQuestion,
) -> (r: AppResult<()>)
    requires
        old(store).wf(),
    ensures
        final(store).wf(),
        r is Err <==> (new_mcq_invalid(question, multi_choice_question)
            || new_mcq_unstorable(*old(store), question, multi_choice_question)),
        r matches Err(e) ==> {
            &&& *final(store) == *old(store)
            &&& (e is InvalidInput <==> new_mcq_invalid(question, multi_choice_question))
            &&& (e is StorageFailure <==> (!new_mcq_invalid(question, multi_choice_question)
                && new_mcq_unstorable(*old(store), question, multi_choice_question)))
        },
        r is Ok ==> mcq_created(
            *old(store),
            *final(store),
            question,
            multi_choice_question,
        ),
{
    if question.title.as_str().is_empty() {
        return AppError::new("question title must not be empty");
    }
    let is_multi_choice = match question.question_type {
        QuestionType::MultiChoice => true,
        _ => false,
    };
    if !is_multi_choice {
        return AppError::new("question type must be multi_choice");
    }
    if multi_choice_question.layout_cols <= 0 {
        return AppError::new("layout columns must be positive");
    }
    let ghost ans = multi_choice_question.answers@;
    let ghost cpred = |a: NewMultiChoiceAnswer| a.correct;
    let mut correct_count: usize = 0;
    let mut k: usize = 0;
    proof {
        assert(ans.take(0) =~= Seq::<NewMultiChoiceAnswer>::empty());
        assert(Seq::<NewMultiChoiceAnswer>::empty().filter(cpred)
            =~= Seq::<NewMultiChoiceAnswer>::empty()) by {
            reveal(Seq::filter);
        }
    }
    while k < multi_choice_question.answers.len()
        invariant
            k <= ans.len(),
            correct_count == ans.take(k as int).filter(cpred).len(),
            forall|j: int| 0 <= j < k ==> (#[trigger] ans[j]).content is Some,
        decreases ans.len() - k,
    {
        proof {
            assert(ans.take(k as int + 1) =~= ans.take(k as int).push(ans[k as int]));
            ans.take(k as int).lemma_filter_push(ans[k as int], cpred);
            ans.take(k as int).lemma_filter_len(cpred);
        }
        if multi_choice_question.answers[k].content.is_none() {
            return AppError::new("answer content is required");
        }
        if multi_choice_question.answers[k].correct {
            correct_count = correct_count + 1;
        }
        k = k + 1;
    }
    proof {
        assert(ans.take(k as int) =~= ans);
        assert(answers_complete(ans));
    }
    if multi_choice_question.single_answer && correct_count > 1 {
        return AppError::new("a single-answer question may mark at most one answer correct");
    }
    if find_deck_index(&store.decks, question.deck_id).is_none() {
        return Err(AppError::StorageFailure("deck does not exist".to_string()));
    }
    if store.next_question_id == i64::MAX {
        return Err(AppError::StorageFailure("question id space exhausted".to_string()));
    }
    if store.next_multi_choice_question_id == i64::MAX {
        return Err(AppError::StorageFailure("detail id space exhausted".to_string()));
    }
    if ((i64::MAX - store.next_multi_choice_answer_id) as u64)
        < (multi_choice_question.answers.len() as u64) {
        return Err(AppError::StorageFailure("answer id space exhausted".to_string()));
    }
    let ghost start = *store;
    let question_id = match new_question(store, &question) {
        Ok(id) => id,
        Err(_) => vstd::pervasive::unreached(),
    };
    let detail_id = store.next_multi_choice_question_id;
    let ghost old_details = store.multi_choice_questions@;
    store.multi_choice_questions.push(
        MultiChoiceQuestion {
            id: detail_id,
            question_id,
            layout_cols: multi_choice_question.layout_cols,
            single_answer: multi_choice_question.single_answer,
        },
    );
    store.next_multi_choice_question_id = detail_id + 1;
    proof {
        assert(store.multi_choice_questions@.drop_last() =~= old_details);
        lemma_question_at_index(store.questions@, store.questions@.len() - 1);
        assert forall|i: int| 0 <= i < store.multi_choice_questions@.len() implies {
            &&& contains_question(
                store.questions@,
                (#[trigger] store.multi_choice_questions@[i]).question_id,
            )
            &&& question_at(
                store.questions@,
                store.multi_choice_questions@[i].question_id,
            ).question_type == QuestionType::MultiChoice
        } by {
            if i < old_details.len() {
                let qid = old_details[i].question_id;
                assert(contains_question(start.questions@, qid));
                let w = choose|w: int|
                    0 <= w < start.questions@.len() && start.questions@[w].id == qid;
                lemma_question_at_index(start.questions@, w);
                lemma_question_at_index(store.questions@, w);
            }
        }
        assert forall|i: int, j: int|
            0 <= i < j < store.multi_choice_questions@.len() implies store
            .multi_choice_questions@[i].question_id
            != store.multi_choice_questions@[j].question_id by {
            if j == store.multi_choice_questions@.len() - 1 {
                let qid = old_details[i].question_id;
                assert(contains_question(start.questions@, qid));
                let w = choose|w: int|
                    0 <= w < start.questions@.len() && start.questions@[w].id == qid;
                assert(start.questions@[w].id < start.next_question_id);
            }
        }
        assert forall|i: int| 0 <= i < store.multi_choice_answers@.len() implies contains_detail(
            store.multi_choice_questions@,
            (#[trigger] store.multi_choice_answers@[i]).question_id,
        ) by {
            let did = store.multi_choice_answers@[i].question_id;
            assert(contains_detail(old_details, did));
            let w = choose|w: int| 0 <= w < old_details.len() && old_details[w].id == did;
            assert(store.multi_choice_questions@[w].id == did);
        }
    }
    let ghost mid = *store;
    let n = multi_choice_question.answers.len();
    let base = store.next_multi_choice_answer_id;
    let ghost old_answers = store.multi_choice_answers@;
    let mut k: usize = 0;
    while k < n
        invariant
            k <= n,
            store.decks@ == mid.decks@,
            store.questions@ == mid.questions@,
            store.multi_choice_questions@ == mid.multi_choice_questions@,
            store.next_deck_id == mid.next_deck_id,
            store.next_question_id == mid.next_question_id,
            store.next_multi_choice_question_id == mid.next_multi_choice_question_id,
            store.next_multi_choice_answer_id == base + k,
            store.multi_choice_answers@.len() == old_answers.len() + k,
            store.multi_choice_answers@.subrange(0, old_answers.len() as int)
                == old_answers,
            forall|j: int|
                0 <= j < k ==> {
                    let a = #[trigger] store.multi_choice_answers@[old_answers.len() + j];
                    &&& a.id == base + j
                    &&& a.question_id == detail_id
                    &&& (ans[j].content matches Some(c) && a.content == c)
                    &&& a.correct == ans[j].correct
                },
            forall|i: int|
                0 <= i < store.multi_choice_answers@.len() ==> 0 < (
                #[trigger] store.multi_choice_answers@[i]).id
                    < store.next_multi_choice_answer_id,
            answer_ids_sorted(store.multi_choice_answers@),
            answers_linked(store.multi_choice_answers@, store.multi_choice_questions@),
        decreases n - k,
    {
        let content = match &multi_choice_question.answers[k].content {
            Some(c) => c.clone(),
            None => vstd::pervasive::unreached(),
        };
        let aid = store.next_multi_choice_answer_id;
        let ghost prev_answers = store.multi_choice_answers@;
        store.multi_choice_answers.push(
            MultiChoiceAnswer {
                id: aid,
                question_id: detail_id,
                content,
                correct: multi_choice_question.answers[k].correct,
            },
        );
        store.next_multi_choice_answer_id = aid + 1;
        proof {
            assert(store.multi_choice_answers@.subrange(0, old_answers.len() as int)
                =~= prev_answers.subrange(0, old_answers.len() as int));
            assert(contains_detail(store.multi_choice_questions@, detail_id)) by {
                let last = store.multi_choice_questions@.len() - 1;
                assert(store.multi_choice_questions@[last].id == detail_id);
            }
        }
        k = k + 1;
    }
    proof {
        assert(store.multi_choice_answers@.subrange(0, old_answers.len() as int)
            =~= old_answers);
        assert(mcq_created(start, *store, question, multi_choice_question));
    }
    Ok(())
}

/// Law: an archived question is hidden from its deck's listing — no
/// preview carries its id — yet it stays in the store and remains
/// fetchable by its id.
pub proof fn lemma_archived_question_hidden(
    questions: Seq<Question>,
    i: int,
    deck_id: i64,
)
    requires
        question_ids_sorted(questions),
        0 <= i < questions.len(),
        questions[i].archived,
    ensures
        contains_question(questions, questions[i].id),
        forall|k: int|
            0 <= k < listed_questions(questions, deck_id).len()
                ==> (#[trigger] listed_questions(questions, deck_id)[k]).id
                != questions[i].id,
{
    let pred = |q: Question| question_listed(q, deck_id);
    assert(contains_question(questions, questions[i].id));
    assert forall|k: int|
        0 <= k < listed_questions(questions, deck_id).len() implies (
    #[trigger] listed_questions(questions, deck_id)[k]).id != questions[i].id by {
        questions.lemma_filter_pred(pred, k);
        let listed = listed_questions(questions, deck_id);
        assert(listed.contains(listed[k]));
        questions.lemma_filter_contains_rev(pred, listed[k]);
        let j = choose|j: int| 0 <= j < questions.len() && questions[j] == listed[k];
        if questions[j].id == questions[i].id {
            if i < j {
                assert(questions[i].id < questions[j].id);
            } else if j < i {
                assert(questions[j].id < questions[i].id);
            }
        }
    }
}

} // verus!
