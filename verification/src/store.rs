//! The in-memory model of the embedded relational store: one table per
//! record kind, with auto-incrementing ids. Repository operations take the
//! store exclusively (`&mut` or `&`), which serializes all access, and each
//! operation is one logical unit of work.

use vstd::prelude::*;

use crate::decks::{deck_ids_sorted, deck_parents_ok, Deck};
use crate::questions::{
    answer_ids_sorted, answers_linked, contains_deck_of_questions, detail_ids_sorted,
    details_linked, question_ids_sorted, MultiChoiceAnswer, MultiChoiceQuestion, Question,
};

verus! {

/// The four tables of the core and their next auto-assigned row ids.
pub struct Store {
    pub decks: Vec<Deck>,
    pub questions: Vec<Question>,
    pub multi_choice_questions: Vec<MultiChoiceQuestion>,
    pub multi_choice_answers: Vec<MultiChoiceAnswer>,
    pub next_deck_id: i64,
    pub next_question_id: i64,
    pub next_multi_choice_question_id: i64,
    pub next_multi_choice_answer_id: i64,
}

impl Store {
    /// Well-formedness of the deck table: positive ids below the
    /// auto-increment counter, assigned in increasing order, and every
    /// parent link naming an earlier deck (hence no cycle).
    pub open spec fn decks_wf(self) -> bool {
        &&& 0 < self.next_deck_id
        &&& forall|i: int| 0 <= i < self.decks@.len()
            ==> 0 < (#[trigger] self.decks@[i]).id < self.next_deck_id
        &&& deck_ids_sorted(self.decks@)
        &&& deck_parents_ok(self.decks@)
    }

    /// Well-formedness of the question table: positive ids below the
    /// counter, assigned in increasing order, each row owned by an existing
    /// deck.
    pub open spec fn questions_wf(self) -> bool {
        &&& 0 < self.next_question_id
        &&& forall|i: int| 0 <= i < self.questions@.len()
            ==> 0 < (#[trigger] self.questions@[i]).id < self.next_question_id
        &&& question_ids_sorted(self.questions@)
        &&& contains_deck_of_questions(self.questions@, self.decks@)
    }

    /// Well-formedness of the two multiple-choice tables: ids as above,
    /// each detail under one `MultiChoice` question (at most one per
    /// question), each answer under an existing detail.
    pub open spec fn multi_choice_wf(self) -> bool {
        &&& 0 < self.next_multi_choice_question_id
        &&& forall|i: int| 0 <= i < self.multi_choice_questions@.len()
            ==> 0 < (#[trigger] self.multi_choice_questions@[i]).id
                < self.next_multi_choice_question_id
        &&& detail_ids_sorted(self.multi_choice_questions@)
        &&& details_linked(self.multi_choice_questions@, self.questions@)
        &&& 0 < self.next_multi_choice_answer_id
        &&& forall|i: int| 0 <= i < self.multi_choice_answers@.len()
            ==> 0 < (#[trigger] self.multi_choice_answers@[i]).id
                < self.next_multi_choice_answer_id
        &&& answer_ids_sorted(self.multi_choice_answers@)
        &&& answers_linked(self.multi_choice_answers@, self.multi_choice_questions@)
    }

    /// The store invariant: every table is well formed. Constructors
    /// establish it and every repository operation preserves it.
    pub open spec fn wf(self) -> bool {
        &&& self.decks_wf()
        &&& self.questions_wf()
        &&& self.multi_choice_wf()
    }

    /// A freshly created store: empty tables, ids starting at 1.
    pub fn new() -> (s: Store)
        ensures
            s.wf(),
            s.decks@ == Seq::<Deck>::empty(),
            s.questions@ == Seq::<Question>::empty(),
            s.multi_choice_questions@ == Seq::<MultiChoiceQuestion>::empty(),
            s.multi_choice_answers@ == Seq::<MultiChoiceAnswer>::empty(),
            s.next_deck_id == 1,
            s.next_question_id == 1,
            s.next_multi_choice_question_id == 1,
            s.next_multi_choice_answer_id == 1,
    {
        Store {
            decks: Vec::new(),
            questions: Vec::new(),
            multi_choice_questions: Vec::new(),
            multi_choice_answers: Vec::new(),
            next_deck_id: 1,
            next_question_id: 1,
            next_multi_choice_question_id: 1,
            next_multi_choice_answer_id: 1,
        }
    }
}

} // verus!
