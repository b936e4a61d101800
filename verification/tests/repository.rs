use big_brain_core::decks::{get_deck, get_deck_crumbs, get_deck_name, get_decks, new_deck, Deck, NewDeck};
use big_brain_core::error::AppError;
use big_brain_core::questions::{
    get_question, get_questions, new_multi_choice_question, new_question, NewMultiChoiceAnswer,
    NewMultiChoiceQuestion, NewQuestion, Question, QuestionType,
};
use big_brain_core::store::Store;

fn plain_deck(name: &str, parent_id: Option<i64>) -> NewDeck {
    NewDeck {
        parent_id,
        name: name.to_string(),
        description: None,
        color: "#336699".to_string(),
        cover_image: None,
    }
}

#[test]
fn deck_round_trip() {
    let mut store = Store::new();
    let deck = NewDeck {
        parent_id: None,
        name: "Algebra".to_string(),
        description: None,
        color: "#ff0000".to_string(),
        cover_image: None,
    };
    let id = new_deck(&mut store, deck).unwrap();
    let fetched = get_deck(&store, id).unwrap();
    assert_eq!(fetched.id, id);
    assert_eq!(fetched.parent_id, None);
    assert_eq!(fetched.name, "Algebra");
    assert_eq!(fetched.description, None);
    assert_eq!(fetched.color, "#ff0000");
    assert_eq!(fetched.cover_image, None);
    assert!(!fetched.archived);
    assert_eq!(fetched.created_at, fetched.updated_at);
}

#[test]
fn deck_round_trip_with_all_fields() {
    let mut store = Store::new();
    let deck = NewDeck {
        parent_id: None,
        name: "Topology".to_string(),
        description: Some("compactness and friends".to_string()),
        color: "#123456".to_string(),
        cover_image: Some("images/cover.png".to_string()),
    };
    let id = new_deck(&mut store, deck).unwrap();
    let child = NewDeck {
        parent_id: Some(id),
        name: "Metric spaces".to_string(),
        description: None,
        color: "#654321".to_string(),
        cover_image: None,
    };
    let child_id = new_deck(&mut store, child).unwrap();
    let fetched = get_deck(&store, id).unwrap();
    assert_eq!(fetched.description.as_deref(), Some("compactness and friends"));
    assert_eq!(fetched.cover_image.as_deref(), Some("images/cover.png"));
    let fetched_child = get_deck(&store, child_id).unwrap();
    assert_eq!(fetched_child.parent_id, Some(id));
}

#[test]
fn listings_keep_insertion_order() {
    let mut store = Store::new();
    let parent = new_deck(&mut store, plain_deck("P", None)).unwrap();
    let first = new_deck(&mut store, plain_deck("first", Some(parent))).unwrap();
    let second = new_deck(&mut store, plain_deck("second", Some(parent))).unwrap();
    let third = new_deck(&mut store, plain_deck("third", Some(parent))).unwrap();
    let listed = get_decks(&store, Some(parent)).unwrap();
    let ids: Vec<i64> = listed.iter().map(|p| p.id).collect();
    assert_eq!(ids, vec![first, second, third]);
}

#[test]
fn deck_ids_increment_from_one() {
    let mut store = Store::new();
    let a = new_deck(&mut store, plain_deck("A", None)).unwrap();
    let b = new_deck(&mut store, plain_deck("B", None)).unwrap();
    assert_eq!(a, 1);
    assert_eq!(b, 2);
}

#[test]
fn crumbs_scenario_child_to_root() {
    let mut store = Store::new();
    let a = new_deck(&mut store, plain_deck("A", None)).unwrap();
    let b = new_deck(&mut store, plain_deck("B", Some(a))).unwrap();
    let c = new_deck(&mut store, plain_deck("C", Some(b))).unwrap();
    let crumbs = get_deck_crumbs(&store, c).unwrap();
    let ids: Vec<i64> = crumbs.iter().map(|cr| cr.id).collect();
    let names: Vec<&str> = crumbs.iter().map(|cr| cr.name.as_str()).collect();
    assert_eq!(ids, vec![c, b, a]);
    assert_eq!(names, vec!["C", "B", "A"]);
}

#[test]
fn crumbs_of_root_is_single() {
    let mut store = Store::new();
    let a = new_deck(&mut store, plain_deck("A", None)).unwrap();
    let crumbs = get_deck_crumbs(&store, a).unwrap();
    assert_eq!(crumbs.len(), 1);
    assert_eq!(crumbs[0].id, a);
    assert_eq!(crumbs[0].name, "A");
}

#[test]
fn crumbs_of_missing_deck_not_found() {
    let store = Store::new();
    match get_deck_crumbs(&store, 7) {
        Err(AppError::NotFound) => {}
        other => panic!("expected NotFound, got {:?}", other.is_ok()),
    }
}

#[test]
fn list_root_excludes_children() {
    let mut store = Store::new();
    let a = new_deck(&mut store, plain_deck("A", None)).unwrap();
    let b = new_deck(&mut store, plain_deck("B", Some(a))).unwrap();
    let _c = new_deck(&mut store, plain_deck("C", Some(b))).unwrap();
    let roots = get_decks(&store, None).unwrap();
    assert_eq!(roots.len(), 1);
    assert_eq!(roots[0].id, a);
    assert_eq!(roots[0].name, "A");
    let under_a = get_decks(&store, Some(a)).unwrap();
    assert_eq!(under_a.len(), 1);
    assert_eq!(under_a[0].id, b);
    let under_b = get_decks(&store, Some(b)).unwrap();
    assert_eq!(under_b.len(), 1);
    assert_eq!(under_b[0].name, "C");
}

fn deck_row(id: i64, parent_id: Option<i64>, name: &str, archived: bool) -> Deck {
    Deck {
        id,
        parent_id,
        name: name.to_string(),
        description: None,
        color: "#000000".to_string(),
        cover_image: None,
        archived,
        created_at: "2024-01-01T00:00:00+00:00".to_string(),
        updated_at: "2024-01-01T00:00:00+00:00".to_string(),
    }
}

#[test]
fn archived_deck_hidden_but_fetchable() {
    let store = Store {
        decks: vec![
            deck_row(1, None, "kept", false),
            deck_row(2, None, "hidden", true),
        ],
        questions: Vec::new(),
        multi_choice_questions: Vec::new(),
        multi_choice_answers: Vec::new(),
        next_deck_id: 3,
        next_question_id: 1,
        next_multi_choice_question_id: 1,
        next_multi_choice_answer_id: 1,
    };
    let roots = get_decks(&store, None).unwrap();
    assert_eq!(roots.len(), 1);
    assert_eq!(roots[0].id, 1);
    let hidden = get_deck(&store, 2).unwrap();
    assert_eq!(hidden.name, "hidden");
    assert!(hidden.archived);
    assert_eq!(get_deck_name(&store, 2).unwrap(), "hidden");
}

#[test]
fn new_deck_empty_name_rejected() {
    let mut store = Store::new();
    match new_deck(&mut store, plain_deck("", None)) {
        Err(AppError::InvalidInput(m)) => assert_eq!(m, "deck name must not be empty"),
        _ => panic!("expected InvalidInput"),
    }
    assert!(store.decks.is_empty());
}

#[test]
fn new_deck_missing_parent_rejected() {
    let mut store = Store::new();
    match new_deck(&mut store, plain_deck("A", Some(42))) {
        Err(AppError::StorageFailure(m)) => assert_eq!(m, "parent deck does not exist"),
        _ => panic!("expected StorageFailure"),
    }
    assert!(store.decks.is_empty());
}

#[test]
fn get_deck_not_found() {
    let store = Store::new();
    assert!(matches!(get_deck(&store, 1), Err(AppError::NotFound)));
    assert!(matches!(get_deck_name(&store, 1), Err(AppError::NotFound)));
}

#[test]
fn get_deck_name_works() {
    let mut store = Store::new();
    let id = new_deck(&mut store, plain_deck("Geometry", None)).unwrap();
    assert_eq!(get_deck_name(&store, id).unwrap(), "Geometry");
}

fn mcq_answers(marks: &[(&str, bool)]) -> Vec<NewMultiChoiceAnswer> {
    marks
        .iter()
        .map(|(text, correct)| NewMultiChoiceAnswer {
            content: Some(text.to_string()),
            correct: *correct,
        })
        .collect()
}

fn envelope(deck_id: i64, title: &str) -> NewQuestion {
    NewQuestion {
        deck_id,
        question_type: QuestionType::MultiChoice,
        title: title.to_string(),
        content: None,
    }
}

#[test]
fn mcq_creation_writes_all_three_tables() {
    let mut store = Store::new();
    let deck_id = new_deck(&mut store, plain_deck("A", None)).unwrap();
    let detail = NewMultiChoiceQuestion {
        layout_cols: 2,
        single_answer: true,
        answers: mcq_answers(&[("one", false), ("two", true), ("three", false)]),
    };
    new_multi_choice_question(&mut store, envelope(deck_id, "Pick two"), detail).unwrap();

    assert_eq!(store.questions.len(), 1);
    let q = &store.questions[0];
    assert_eq!(q.id, 1);
    assert_eq!(q.deck_id, deck_id);
    assert_eq!(q.title, "Pick two");
    assert!(!q.archived);

    assert_eq!(store.multi_choice_questions.len(), 1);
    let d = &store.multi_choice_questions[0];
    assert_eq!(d.id, 1);
    assert_eq!(d.question_id, q.id);
    assert_eq!(d.layout_cols, 2);
    assert!(d.single_answer);

    assert_eq!(store.multi_choice_answers.len(), 3);
    let texts: Vec<&str> = store
        .multi_choice_answers
        .iter()
        .map(|a| a.content.as_str())
        .collect();
    assert_eq!(texts, vec!["one", "two", "three"]);
    let corrects: Vec<bool> = store.multi_choice_answers.iter().map(|a| a.correct).collect();
    assert_eq!(corrects, vec![false, true, false]);
    let ids: Vec<i64> = store.multi_choice_answers.iter().map(|a| a.id).collect();
    assert_eq!(ids, vec![1, 2, 3]);
    for a in &store.multi_choice_answers {
        assert_eq!(a.question_id, d.id);
    }

    let previews = get_questions(&store, deck_id).unwrap();
    assert_eq!(previews.len(), 1);
    assert_eq!(previews[0].id, q.id);
    assert_eq!(previews[0].question_type, "multi_choice");
    assert_eq!(previews[0].title, "Pick two");

    let fetched = get_question(&store, q.id).unwrap();
    assert_eq!(fetched.id, q.id);
    assert_eq!(fetched.title, "Pick two");
    assert_eq!(fetched.created_at, fetched.updated_at);
}

#[test]
fn mcq_single_answer_with_two_correct_rejected() {
    let mut store = Store::new();
    let deck_id = new_deck(&mut store, plain_deck("A", None)).unwrap();
    let detail = NewMultiChoiceQuestion {
        layout_cols: 1,
        single_answer: true,
        answers: mcq_answers(&[("one", true), ("two", true), ("three", false)]),
    };
    match new_multi_choice_question(&mut store, envelope(deck_id, "Pick one"), detail) {
        Err(AppError::InvalidInput(_)) => {}
        _ => panic!("expected InvalidInput"),
    }
    assert_eq!(store.questions.len(), 0);
    assert_eq!(store.multi_choice_questions.len(), 0);
    assert_eq!(store.multi_choice_answers.len(), 0);
}

#[test]
fn mcq_failure_leaves_no_partial_rows() {
    let mut store = Store::new();
    let deck_id = new_deck(&mut store, plain_deck("A", None)).unwrap();
    // A deck reference that names no deck fails the operation as a whole.
    let detail = NewMultiChoiceQuestion {
        layout_cols: 1,
        single_answer: false,
        answers: mcq_answers(&[("one", true)]),
    };
    assert!(new_multi_choice_question(&mut store, envelope(deck_id + 7, "Q"), detail).is_err());
    assert_eq!(store.questions.len(), 0);
    assert_eq!(store.multi_choice_questions.len(), 0);
    assert_eq!(store.multi_choice_answers.len(), 0);
    assert_eq!(store.next_question_id, 1);

    // An answer without text fails the operation as a whole.
    let detail = NewMultiChoiceQuestion {
        layout_cols: 1,
        single_answer: false,
        answers: vec![
            NewMultiChoiceAnswer { content: Some("one".to_string()), correct: true },
            NewMultiChoiceAnswer { content: None, correct: false },
        ],
    };
    match new_multi_choice_question(&mut store, envelope(deck_id, "Q"), detail) {
        Err(AppError::InvalidInput(_)) => {}
        _ => panic!("expected InvalidInput"),
    }
    assert_eq!(store.questions.len(), 0);
    assert_eq!(store.multi_choice_questions.len(), 0);
    assert_eq!(store.multi_choice_answers.len(), 0);
}

#[test]
fn mcq_zero_layout_cols_rejected() {
    let mut store = Store::new();
    let deck_id = new_deck(&mut store, plain_deck("A", None)).unwrap();
    let detail = NewMultiChoiceQuestion {
        layout_cols: 0,
        single_answer: false,
        answers: mcq_answers(&[("one", true)]),
    };
    match new_multi_choice_question(&mut store, envelope(deck_id, "Q"), detail) {
        Err(AppError::InvalidInput(_)) => {}
        _ => panic!("expected InvalidInput"),
    }
}

#[test]
fn mcq_wrong_envelope_tag_rejected() {
    let mut store = Store::new();
    let deck_id = new_deck(&mut store, plain_deck("A", None)).unwrap();
    let detail = NewMultiChoiceQuestion {
        layout_cols: 1,
        single_answer: false,
        answers: mcq_answers(&[("yes", true)]),
    };
    let mut env = envelope(deck_id, "Q");
    env.question_type = QuestionType::Binary;
    match new_multi_choice_question(&mut store, env, detail) {
        Err(AppError::InvalidInput(_)) => {}
        _ => panic!("expected InvalidInput"),
    }
}

#[test]
fn new_question_envelope_round_trip() {
    let mut store = Store::new();
    let deck_id = new_deck(&mut store, plain_deck("A", None)).unwrap();
    let q = NewQuestion {
        deck_id,
        question_type: QuestionType::ShortAnswer,
        title: "Define a ring".to_string(),
        content: Some("in one sentence".to_string()),
    };
    let id = new_question(&mut store, &q).unwrap();
    let fetched = get_question(&store, id).unwrap();
    assert_eq!(fetched.id, id);
    assert_eq!(fetched.deck_id, deck_id);
    assert_eq!(fetched.question_type, QuestionType::ShortAnswer);
    assert_eq!(fetched.title, "Define a ring");
    assert_eq!(fetched.content.as_deref(), Some("in one sentence"));
    assert!(!fetched.archived);
}

#[test]
fn new_question_empty_title_rejected() {
    let mut store = Store::new();
    let deck_id = new_deck(&mut store, plain_deck("A", None)).unwrap();
    let q = NewQuestion {
        deck_id,
        question_type: QuestionType::Binary,
        title: String::new(),
        content: None,
    };
    match new_question(&mut store, &q) {
        Err(AppError::InvalidInput(_)) => {}
        _ => panic!("expected InvalidInput"),
    }
    assert!(store.questions.is_empty());
}

#[test]
fn new_question_missing_deck_rejected() {
    let mut store = Store::new();
    let q = NewQuestion {
        deck_id: 9,
        question_type: QuestionType::Binary,
        title: "t".to_string(),
        content: None,
    };
    match new_question(&mut store, &q) {
        Err(AppError::StorageFailure(m)) => assert_eq!(m, "deck does not exist"),
        _ => panic!("expected StorageFailure"),
    }
}

fn question_row(id: i64, deck_id: i64, title: &str, archived: bool) -> Question {
    Question {
        id,
        deck_id,
        question_type: QuestionType::MultiChoice,
        title: title.to_string(),
        content: None,
        archived,
        created_at: "2024-01-01T00:00:00+00:00".to_string(),
        updated_at: "2024-01-01T00:00:00+00:00".to_string(),
    }
}

#[test]
fn archived_question_hidden_but_fetchable() {
    let store = Store {
        decks: vec![deck_row(1, None, "A", false)],
        questions: vec![
            question_row(1, 1, "kept", false),
            question_row(2, 1, "hidden", true),
        ],
        multi_choice_questions: Vec::new(),
        multi_choice_answers: Vec::new(),
        next_deck_id: 2,
        next_question_id: 3,
        next_multi_choice_question_id: 1,
        next_multi_choice_answer_id: 1,
    };
    let previews = get_questions(&store, 1).unwrap();
    assert_eq!(previews.len(), 1);
    assert_eq!(previews[0].title, "kept");
    let hidden = get_question(&store, 2).unwrap();
    assert_eq!(hidden.title, "hidden");
    assert!(hidden.archived);
}

#[test]
fn get_questions_filters_by_deck() {
    let mut store = Store::new();
    let a = new_deck(&mut store, plain_deck("A", None)).unwrap();
    let b = new_deck(&mut store, plain_deck("B", None)).unwrap();
    let qa = NewQuestion {
        deck_id: a,
        question_type: QuestionType::Numeric,
        title: "in A".to_string(),
        content: None,
    };
    let qb = NewQuestion {
        deck_id: b,
        question_type: QuestionType::Code,
        title: "in B".to_string(),
        content: None,
    };
    new_question(&mut store, &qa).unwrap();
    new_question(&mut store, &qb).unwrap();
    let in_a = get_questions(&store, a).unwrap();
    assert_eq!(in_a.len(), 1);
    assert_eq!(in_a[0].title, "in A");
    assert_eq!(in_a[0].question_type, "numeric");
    let in_b = get_questions(&store, b).unwrap();
    assert_eq!(in_b.len(), 1);
    assert_eq!(in_b[0].question_type, "code");
}

#[test]
fn question_type_display_tags() {
    assert_eq!(QuestionType::MultiChoice.name(), "multi_choice");
    assert_eq!(QuestionType::Binary.name(), "binary");
    assert_eq!(QuestionType::FillBlank.name(), "fill_blank");
    assert_eq!(QuestionType::ShortAnswer.name(), "short_answer");
    assert_eq!(QuestionType::LongAnswer.name(), "long_answer");
    assert_eq!(QuestionType::Match.name(), "match");
    assert_eq!(QuestionType::Sequence.name(), "sequence");
    assert_eq!(QuestionType::WordDrag.name(), "word_drag");
    assert_eq!(QuestionType::Dropdown.name(), "dropdown");
    assert_eq!(QuestionType::Numeric.name(), "numeric");
    assert_eq!(QuestionType::HotSpot.name(), "hotspot");
    assert_eq!(QuestionType::Code.name(), "code");
    assert_eq!(QuestionType::Math.name(), "math");
    assert_eq!(QuestionType::Geolocation.name(), "geolocation");
}

#[test]
fn question_get_not_found() {
    let store = Store::new();
    assert!(matches!(get_question(&store, 1), Err(AppError::NotFound)));
}
