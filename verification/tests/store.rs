use truth_or_dare::model::{Error, Invalid, Missing, Prompt, SuggestionType};
use truth_or_dare::store::{is_unbiased, ContentStore};

fn prompt(id: u64, category: SuggestionType, text: &str, safety_tag: bool, author: &str) -> Prompt {
    Prompt { id, category, text: text.to_string(), safety_tag, author: author.to_string() }
}

#[test]
fn new_store_is_empty() {
    let store = ContentStore::new();
    assert_eq!(store.len(), 0);
    assert_eq!(store.get(0), None);
    assert_eq!(store.count(SuggestionType::Truth, false), 0);
}

#[test]
fn insert_hands_out_increasing_ids_from_one() {
    let mut store = ContentStore::new();
    let a = store.insert(SuggestionType::Truth, "First?".to_string(), false, "u1".to_string());
    let b = store.insert(SuggestionType::Dare, "Second".to_string(), true, "u2".to_string());
    let c = store.insert(SuggestionType::Truth, "Third?".to_string(), false, String::new());
    assert_eq!(a, Ok(1));
    assert_eq!(b, Ok(2));
    assert_eq!(c, Ok(3));
    assert_eq!(store.len(), 3);
    assert_eq!(store.get(1), Some(&prompt(2, SuggestionType::Dare, "Second", true, "u2")));
    assert_eq!(store.get(2), Some(&prompt(3, SuggestionType::Truth, "Third?", false, "")));
    assert_eq!(store.get(3), None);
}

#[test]
fn insert_refuses_empty_text_and_changes_nothing() {
    let mut store = ContentStore::new();
    let r = store.insert(SuggestionType::Truth, String::new(), false, "u1".to_string());
    assert_eq!(r, Err(Error::Validation(Invalid::EmptyText)));
    assert_eq!(store.len(), 0);
    let next = store.insert(SuggestionType::Truth, "Real?".to_string(), false, "u1".to_string());
    assert_eq!(next, Ok(1));
}

#[test]
fn insert_reports_storage_failure_when_ids_are_used_up() {
    let rows = vec![prompt(u64::MAX - 1, SuggestionType::Dare, "Last one", false, "u1")];
    let mut store = ContentStore::restore(rows).expect("rows are valid");
    let r = store.insert(SuggestionType::Dare, "One too many".to_string(), false, "u2".to_string());
    assert_eq!(r, Err(Error::Storage));
    assert_eq!(store.len(), 1);
}

#[test]
fn random_fails_with_category_when_nothing_matches() {
    let mut store = ContentStore::new();
    assert_eq!(
        store.random(SuggestionType::Truth, false, 0),
        Err(Error::NotFound(Missing::Prompt(SuggestionType::Truth)))
    );
    store.insert(SuggestionType::Truth, "Safe truth?".to_string(), false, "u1".to_string()).unwrap();
    assert_eq!(
        store.random(SuggestionType::Dare, false, 3),
        Err(Error::NotFound(Missing::Prompt(SuggestionType::Dare)))
    );
    assert_eq!(
        store.random(SuggestionType::Truth, true, 3),
        Err(Error::NotFound(Missing::Prompt(SuggestionType::Truth)))
    );
}

#[test]
fn random_returns_the_only_match_whatever_the_draw() {
    let mut store = ContentStore::new();
    store.insert(SuggestionType::Dare, "Other pool".to_string(), true, "u0".to_string()).unwrap();
    assert_eq!(
        store.random(SuggestionType::Dare, false, 17),
        Err(Error::NotFound(Missing::Prompt(SuggestionType::Dare)))
    );
    store.insert(SuggestionType::Dare, "Hop on one leg".to_string(), false, "u1".to_string()).unwrap();
    let expected = prompt(2, SuggestionType::Dare, "Hop on one leg", false, "u1");
    for draw in [0u64, 1, 2, 17, u64::MAX] {
        assert_eq!(store.random(SuggestionType::Dare, false, draw), Ok(expected.clone()));
    }
}

#[test]
fn random_numbers_the_candidates_in_order_of_insertion() {
    let mut store = ContentStore::new();
    store.insert(SuggestionType::Truth, "A?".to_string(), false, "u1".to_string()).unwrap();
    store.insert(SuggestionType::Dare, "skip".to_string(), false, "u1".to_string()).unwrap();
    store.insert(SuggestionType::Truth, "B?".to_string(), false, "u2".to_string()).unwrap();
    store.insert(SuggestionType::Truth, "skip?".to_string(), true, "u2".to_string()).unwrap();
    store.insert(SuggestionType::Truth, "C?".to_string(), false, "u3".to_string()).unwrap();
    assert_eq!(store.count(SuggestionType::Truth, false), 3);
    assert_eq!(store.count(SuggestionType::Truth, true), 1);
    assert_eq!(store.count(SuggestionType::Dare, false), 1);
    assert_eq!(store.count(SuggestionType::Dare, true), 0);
    let texts: Vec<String> = (0u64..7)
        .map(|draw| store.random(SuggestionType::Truth, false, draw).unwrap().text)
        .collect();
    assert_eq!(texts, vec!["A?", "B?", "C?", "A?", "B?", "C?", "A?"]);
    assert_eq!(store.random(SuggestionType::Truth, false, 4).unwrap().id, 3);
}

#[test]
fn a_full_cycle_of_draws_returns_every_candidate_once() {
    let mut store = ContentStore::new();
    for i in 0..5 {
        store
            .insert(SuggestionType::Dare, format!("dare {}", i), false, "u".to_string())
            .unwrap();
    }
    let mut seen = vec![0u32; 5];
    for draw in 1000u64..1500 {
        let p = store.random(SuggestionType::Dare, false, draw).unwrap();
        seen[(p.id - 1) as usize] += 1;
    }
    assert_eq!(seen, vec![100, 100, 100, 100, 100]);
}

#[test]
fn restore_takes_valid_rows_and_continues_after_the_last_id() {
    let rows = vec![
        prompt(2, SuggestionType::Truth, "Kept?", false, ""),
        prompt(5, SuggestionType::Dare, "Kept", true, "u9"),
    ];
    let mut store = ContentStore::restore(rows).expect("rows are valid");
    assert_eq!(store.len(), 2);
    assert_eq!(store.get(0).unwrap().id, 2);
    let id = store.insert(SuggestionType::Dare, "New".to_string(), false, "u1".to_string());
    assert_eq!(id, Ok(6));
}

#[test]
fn restore_of_no_rows_is_the_empty_store() {
    let mut store = ContentStore::restore(Vec::new()).expect("no rows are valid rows");
    assert_eq!(store.len(), 0);
    assert_eq!(store.insert(SuggestionType::Truth, "Q?".to_string(), false, "u".to_string()), Ok(1));
}

#[test]
fn restore_refuses_rows_that_no_store_could_hold() {
    let zero = vec![prompt(0, SuggestionType::Truth, "Q?", false, "u")];
    assert!(ContentStore::restore(zero).is_none());
    let repeated = vec![
        prompt(3, SuggestionType::Truth, "Q?", false, "u"),
        prompt(3, SuggestionType::Truth, "R?", false, "u"),
    ];
    assert!(ContentStore::restore(repeated).is_none());
    let backwards = vec![
        prompt(4, SuggestionType::Truth, "Q?", false, "u"),
        prompt(2, SuggestionType::Truth, "R?", false, "u"),
    ];
    assert!(ContentStore::restore(backwards).is_none());
    let empty_text = vec![prompt(1, SuggestionType::Truth, "", false, "u")];
    assert!(ContentStore::restore(empty_text).is_none());
    let no_room = vec![prompt(u64::MAX, SuggestionType::Truth, "Q?", false, "u")];
    assert!(ContentStore::restore(no_room).is_none());
}

#[test]
fn category_names_and_partitions() {
    assert_eq!(SuggestionType::Truth.name(), "Truth");
    assert_eq!(SuggestionType::Dare.name(), "Dare");
    assert_eq!(SuggestionType::Truth.partition(), "questions");
    assert_eq!(SuggestionType::Dare.partition(), "dares");
}

#[test]
fn category_is_read_from_its_name_only() {
    assert_eq!(SuggestionType::from_name("Truth"), Ok(SuggestionType::Truth));
    assert_eq!(SuggestionType::from_name("Dare"), Ok(SuggestionType::Dare));
    for bad in ["", "truth", "DARE", "Dare ", "questions", "Truths"] {
        assert_eq!(
            SuggestionType::from_name(bad),
            Err(Error::Validation(Invalid::UnknownCategory))
        );
    }
    for c in [SuggestionType::Truth, SuggestionType::Dare] {
        assert_eq!(SuggestionType::from_name(c.name()), Ok(c));
    }
}

#[test]
fn prompt_clone_keeps_every_field() {
    let p = prompt(9, SuggestionType::Dare, "Dance", true, "u4");
    assert_eq!(p.clone(), p);
}

#[test]
fn unbiased_draws_are_whole_runs() {
    assert!(!is_unbiased(0, 0));
    assert!(!is_unbiased(0, 5));
    assert!(is_unbiased(1, 0));
    assert!(is_unbiased(1, u64::MAX));
    assert!(is_unbiased(2, u64::MAX));
    assert!(is_unbiased(3, 0));
    assert!(is_unbiased(3, u64::MAX - 1));
    assert!(!is_unbiased(3, u64::MAX));
    assert!(is_unbiased(10, 18446744073709551609));
    assert!(!is_unbiased(10, 18446744073709551610));
    assert!(!is_unbiased(10, u64::MAX));
}
