use truth_or_dare::model::{Error, Missing, SuggestionType};
use truth_or_dare::moderation::Moderation;
use truth_or_dare::retrieval::{serve, Context};
use truth_or_dare::store::ContentStore;

fn mixed_store() -> ContentStore {
    let mut store = ContentStore::new();
    store.insert(SuggestionType::Truth, "Mild?".to_string(), false, "u1".to_string()).unwrap();
    store.insert(SuggestionType::Truth, "Spicy?".to_string(), true, "u2".to_string()).unwrap();
    store.insert(SuggestionType::Dare, "Spicy dare".to_string(), true, "u3".to_string()).unwrap();
    store
}

#[test]
fn context_tag_is_true_only_when_marked() {
    assert!(Context { age_restricted: Some(true) }.safety_tag());
    assert!(!Context { age_restricted: Some(false) }.safety_tag());
    assert!(!Context { age_restricted: None }.safety_tag());
}

#[test]
fn unmarked_context_never_gets_tagged_prompts() {
    let store = mixed_store();
    for context in [Context { age_restricted: Some(false) }, Context { age_restricted: None }] {
        for draw in 0u64..20 {
            let p = serve(&store, SuggestionType::Truth, &context, draw).unwrap();
            assert!(!p.safety_tag);
            assert_eq!(p.text, "Mild?");
            assert_eq!(
                serve(&store, SuggestionType::Dare, &context, draw),
                Err(Error::NotFound(Missing::Prompt(SuggestionType::Dare)))
            );
        }
    }
}

#[test]
fn marked_context_gets_tagged_prompts() {
    let store = mixed_store();
    let context = Context { age_restricted: Some(true) };
    for draw in 0u64..20 {
        assert_eq!(serve(&store, SuggestionType::Truth, &context, draw).unwrap().text, "Spicy?");
        assert_eq!(serve(&store, SuggestionType::Dare, &context, draw).unwrap().text, "Spicy dare");
    }
}

#[test]
fn approved_tagged_submission_is_served_only_where_marked() {
    let mut m = Moderation::new();
    m.submit(SuggestionType::Dare, "Risky".to_string(), true, "u1".to_string()).unwrap();
    m.approve(1).unwrap();
    let marked = Context { age_restricted: Some(true) };
    let plain = Context { age_restricted: Some(false) };
    assert_eq!(serve(m.store(), SuggestionType::Dare, &marked, 7).unwrap().text, "Risky");
    assert!(serve(m.store(), SuggestionType::Dare, &marked, 7).unwrap().safety_tag);
    assert_eq!(
        serve(m.store(), SuggestionType::Dare, &plain, 7),
        Err(Error::NotFound(Missing::Prompt(SuggestionType::Dare)))
    );
}
