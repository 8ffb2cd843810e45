use truth_or_dare::model::{Error, Invalid, Missing, Prompt, SuggestionType};
use truth_or_dare::live::{Affordance, LiveReview, Phase, Reaction};
use truth_or_dare::moderation::{suggest, Moderation, Notice, Outcome, Status, Submission};
use truth_or_dare::store::ContentStore;

fn submission(id: u64, text: &str, status: Status) -> Submission {
    Submission {
        id,
        category: SuggestionType::Truth,
        text: text.to_string(),
        safety_tag: false,
        author: "u1".to_string(),
        status,
    }
}

#[test]
fn submit_creates_a_pending_record() {
    let mut m = Moderation::new();
    let id = m.submit(SuggestionType::Truth, "Biggest fear?".to_string(), true, "u5".to_string());
    assert_eq!(id, Ok(1));
    assert_eq!(m.len(), 1);
    assert_eq!(m.status(1), Some(Status::Pending));
    assert_eq!(
        m.get(1),
        Some(&Submission {
            id: 1,
            category: SuggestionType::Truth,
            text: "Biggest fear?".to_string(),
            safety_tag: true,
            author: "u5".to_string(),
            status: Status::Pending,
        })
    );
    assert_eq!(m.store().len(), 0);
    assert_eq!(m.get(2), None);
    assert_eq!(m.status(0), None);
}

#[test]
fn submit_refuses_empty_text() {
    let mut m = Moderation::new();
    let r = m.submit(SuggestionType::Dare, String::new(), false, "u1".to_string());
    assert_eq!(r, Err(Error::Validation(Invalid::EmptyText)));
    assert_eq!(m.len(), 0);
    assert_eq!(m.submit(SuggestionType::Dare, "Sing".to_string(), false, "u1".to_string()), Ok(1));
}

#[test]
fn submit_reports_storage_failure_when_ids_are_used_up() {
    let rows = vec![submission(u64::MAX - 1, "Last?", Status::Pending)];
    let mut m = Moderation::restore(ContentStore::new(), rows).expect("rows are valid");
    let r = m.submit(SuggestionType::Dare, "Too late".to_string(), false, "u1".to_string());
    assert_eq!(r, Err(Error::Storage));
    assert_eq!(m.len(), 1);
}

#[test]
fn approve_unknown_id_is_not_found() {
    let mut m = Moderation::new();
    assert_eq!(m.approve(1), Err(Error::NotFound(Missing::Submission(1))));
    m.submit(SuggestionType::Dare, "Sing".to_string(), false, "u1".to_string()).unwrap();
    assert_eq!(m.approve(2), Err(Error::NotFound(Missing::Submission(2))));
    assert_eq!(m.reject(0), Err(Error::NotFound(Missing::Submission(0))));
    assert_eq!(m.status(1), Some(Status::Pending));
    assert_eq!(m.store().len(), 0);
}

#[test]
fn approve_twice_inserts_one_prompt() {
    let mut m = Moderation::new();
    for i in 0..6 {
        m.submit(SuggestionType::Truth, format!("filler {}?", i), false, "u0".to_string()).unwrap();
    }
    let id = m.submit(SuggestionType::Dare, "Sing a song".to_string(), false, "u1".to_string());
    assert_eq!(id, Ok(7));
    assert_eq!(m.approve(7), Ok(Outcome::Approved(1)));
    assert_eq!(m.status(7), Some(Status::Approved));
    assert_eq!(m.store().len(), 1);
    assert_eq!(
        m.store().get(0),
        Some(&Prompt {
            id: 1,
            category: SuggestionType::Dare,
            text: "Sing a song".to_string(),
            safety_tag: false,
            author: "u1".to_string(),
        })
    );
    assert_eq!(m.approve(7), Ok(Outcome::AlreadyResolved(Status::Approved)));
    assert_eq!(m.store().len(), 1);
    assert_eq!(m.store().count(SuggestionType::Dare, false), 1);
    assert_eq!(m.status(7), Some(Status::Approved));
    for other in 1..=6 {
        assert_eq!(m.status(other), Some(Status::Pending));
    }
}

#[test]
fn reject_writes_no_prompt_and_is_final() {
    let mut m = Moderation::new();
    m.submit(SuggestionType::Dare, "Sing".to_string(), false, "u1".to_string()).unwrap();
    assert_eq!(m.reject(1), Ok(Outcome::Rejected));
    assert_eq!(m.status(1), Some(Status::Rejected));
    assert_eq!(m.store().len(), 0);
    assert_eq!(m.reject(1), Ok(Outcome::AlreadyResolved(Status::Rejected)));
    assert_eq!(m.approve(1), Ok(Outcome::AlreadyResolved(Status::Rejected)));
    assert_eq!(m.status(1), Some(Status::Rejected));
    assert_eq!(m.store().len(), 0);
}

#[test]
fn approved_submission_cannot_be_rejected() {
    let mut m = Moderation::new();
    m.submit(SuggestionType::Truth, "Why?".to_string(), false, "u1".to_string()).unwrap();
    assert_eq!(m.approve(1), Ok(Outcome::Approved(1)));
    assert_eq!(m.reject(1), Ok(Outcome::AlreadyResolved(Status::Approved)));
    assert_eq!(m.status(1), Some(Status::Approved));
    assert_eq!(m.store().len(), 1);
}

#[test]
fn approval_keeps_the_safety_tag() {
    let mut m = Moderation::new();
    m.submit(SuggestionType::Truth, "Spicy?".to_string(), true, "u7".to_string()).unwrap();
    assert_eq!(m.approve(1), Ok(Outcome::Approved(1)));
    let p = m.store().get(0).unwrap();
    assert!(p.safety_tag);
    assert_eq!(p.category, SuggestionType::Truth);
    assert_eq!(p.text, "Spicy?");
    assert_eq!(p.author, "u7");
    assert_eq!(m.store().count(SuggestionType::Truth, true), 1);
    assert_eq!(m.store().count(SuggestionType::Truth, false), 0);
}

#[test]
fn approval_fails_whole_when_the_store_refuses() {
    let prompts = vec![Prompt {
        id: u64::MAX - 1,
        category: SuggestionType::Dare,
        text: "Last".to_string(),
        safety_tag: false,
        author: String::new(),
    }];
    let store = ContentStore::restore(prompts).expect("rows are valid");
    let mut m = Moderation::restore(store, Vec::new()).expect("rows are valid");
    m.submit(SuggestionType::Dare, "Sing".to_string(), false, "u1".to_string()).unwrap();
    assert_eq!(m.approve(1), Err(Error::Storage));
    assert_eq!(m.status(1), Some(Status::Pending));
    assert_eq!(m.store().len(), 1);
    assert_eq!(m.approve(1), Err(Error::Storage));
    assert_eq!(m.reject(1), Ok(Outcome::Rejected));
}

#[test]
fn prompt_ids_follow_approvals_not_submissions() {
    let mut m = Moderation::new();
    m.submit(SuggestionType::Dare, "One".to_string(), false, "u1".to_string()).unwrap();
    m.submit(SuggestionType::Dare, "Two".to_string(), false, "u2".to_string()).unwrap();
    m.submit(SuggestionType::Dare, "Three".to_string(), false, "u3".to_string()).unwrap();
    assert_eq!(m.approve(3), Ok(Outcome::Approved(1)));
    assert_eq!(m.reject(2), Ok(Outcome::Rejected));
    assert_eq!(m.approve(1), Ok(Outcome::Approved(2)));
    assert_eq!(m.store().get(0).unwrap().text, "Three");
    assert_eq!(m.store().get(1).unwrap().text, "One");
    assert_eq!(m.at(1).unwrap().status, Status::Rejected);
    assert!(m.at(3).is_none());
}

#[test]
fn insert_prompt_goes_past_the_queue() {
    let mut m = Moderation::new();
    m.submit(SuggestionType::Dare, "Waiting".to_string(), false, "u1".to_string()).unwrap();
    let id = m.insert_prompt(SuggestionType::Truth, "Direct?".to_string(), false, "admin".to_string());
    assert_eq!(id, Ok(1));
    assert_eq!(m.len(), 1);
    assert_eq!(m.status(1), Some(Status::Pending));
    assert_eq!(m.store().len(), 1);
    assert_eq!(
        m.insert_prompt(SuggestionType::Truth, String::new(), false, "admin".to_string()),
        Err(Error::Validation(Invalid::EmptyText))
    );
    assert_eq!(m.approve(1), Ok(Outcome::Approved(2)));
}

#[test]
fn restore_queue_takes_valid_rows() {
    let rows = vec![
        submission(1, "A?", Status::Approved),
        submission(4, "B?", Status::Pending),
        submission(9, "C?", Status::Rejected),
    ];
    let mut m = Moderation::restore(ContentStore::new(), rows).expect("rows are valid");
    assert_eq!(m.status(1), Some(Status::Approved));
    assert_eq!(m.status(4), Some(Status::Pending));
    assert_eq!(m.status(9), Some(Status::Rejected));
    assert_eq!(m.status(2), None);
    assert_eq!(m.submit(SuggestionType::Dare, "D".to_string(), false, "u".to_string()), Ok(10));
    assert_eq!(m.approve(4), Ok(Outcome::Approved(1)));
    assert_eq!(m.approve(1), Ok(Outcome::AlreadyResolved(Status::Approved)));
}

#[test]
fn restore_queue_refuses_invalid_rows() {
    let unordered = vec![submission(2, "A?", Status::Pending), submission(1, "B?", Status::Pending)];
    assert!(Moderation::restore(ContentStore::new(), unordered).is_none());
    let zero = vec![submission(0, "A?", Status::Pending)];
    assert!(Moderation::restore(ContentStore::new(), zero).is_none());
    let empty_text = vec![submission(1, "", Status::Pending)];
    assert!(Moderation::restore(ContentStore::new(), empty_text).is_none());
    let no_room = vec![submission(u64::MAX, "A?", Status::Pending)];
    assert!(Moderation::restore(ContentStore::new(), no_room).is_none());
}

#[test]
fn submission_clone_keeps_every_field() {
    let s = submission(3, "Copy?", Status::Rejected);
    assert_eq!(s.clone(), s);
}

#[test]
fn suggest_queues_and_announces_the_submission() {
    let mut m = Moderation::new();
    m.submit(SuggestionType::Truth, "Earlier?".to_string(), false, "u0".to_string()).unwrap();
    let notice = suggest(&mut m, SuggestionType::Dare, "Sing a song".to_string(), true, "u1".to_string());
    assert_eq!(
        notice,
        Ok(Notice {
            submission: 2,
            category: SuggestionType::Dare,
            text: "Sing a song".to_string(),
            safety_tag: true,
            author: "u1".to_string(),
        })
    );
    assert_eq!(m.status(2), Some(Status::Pending));
    assert_eq!(m.get(2).unwrap().text, "Sing a song");
    assert_eq!(m.store().len(), 0);
    let refused = suggest(&mut m, SuggestionType::Dare, String::new(), false, "u1".to_string());
    assert_eq!(refused, Err(Error::Validation(Invalid::EmptyText)));
    assert_eq!(m.len(), 2);
}

#[test]
fn live_review_writes_to_the_workflow_store() {
    let mut m = Moderation::new();
    m.submit(SuggestionType::Dare, "Queued".to_string(), false, "u0".to_string()).unwrap();
    let mut review =
        LiveReview::open(5, SuggestionType::Truth, "Live?".to_string(), false, "u1".to_string(), 100)
            .unwrap();
    assert_eq!(m.resolve_live(&mut review, 6, Affordance::Accept, 101), Reaction::Ignored);
    assert_eq!(m.store().len(), 0);
    assert_eq!(m.resolve_live(&mut review, 5, Affordance::Accept, 101), Reaction::Accepted(1));
    assert_eq!(review.phase(), Phase::Accepted);
    assert_eq!(m.store().len(), 1);
    assert_eq!(m.store().get(0).unwrap().text, "Live?");
    assert_eq!(m.resolve_live(&mut review, 5, Affordance::Accept, 102), Reaction::Ignored);
    assert_eq!(m.store().len(), 1);
    assert_eq!(m.len(), 1);
    assert_eq!(m.status(1), Some(Status::Pending));
}

#[test]
fn status_words() {
    assert_eq!(Status::Pending.name(), "pending");
    assert_eq!(Status::Approved.name(), "approved");
    assert_eq!(Status::Rejected.name(), "rejected");
    for status in [Status::Pending, Status::Approved, Status::Rejected] {
        assert_eq!(Status::from_name(status.name()), Some(status));
    }
    assert_eq!(Status::from_name("Pending"), None);
    assert_eq!(Status::from_name(""), None);
    assert_eq!(Status::from_name("accepted"), None);
}

#[test]
fn resolution_outlasts_other_operations() {
    let mut m = Moderation::new();
    m.submit(SuggestionType::Dare, "First".to_string(), false, "u1".to_string()).unwrap();
    m.submit(SuggestionType::Dare, "Second".to_string(), false, "u2".to_string()).unwrap();
    assert_eq!(m.approve(1), Ok(Outcome::Approved(1)));
    assert_eq!(m.reject(2), Ok(Outcome::Rejected));
    m.submit(SuggestionType::Truth, "Third?".to_string(), true, "u3".to_string()).unwrap();
    m.insert_prompt(SuggestionType::Truth, "Direct?".to_string(), false, "admin".to_string()).unwrap();
    assert_eq!(m.approve(3), Ok(Outcome::Approved(3)));
    assert_eq!(m.reject(9), Err(Error::NotFound(Missing::Submission(9))));
    assert_eq!(m.approve(1), Ok(Outcome::AlreadyResolved(Status::Approved)));
    assert_eq!(m.reject(1), Ok(Outcome::AlreadyResolved(Status::Approved)));
    assert_eq!(m.approve(2), Ok(Outcome::AlreadyResolved(Status::Rejected)));
    assert_eq!(m.store().len(), 3);
    assert_eq!(m.store().get(0).unwrap().text, "First");
    assert_eq!(m.store().get(1).unwrap().text, "Direct?");
    assert_eq!(m.store().get(2).unwrap().text, "Third?");
    assert_eq!(m.store().count(SuggestionType::Dare, false), 1);
}
