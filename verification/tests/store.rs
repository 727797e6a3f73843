use qa_store::local::LocalStore;
use qa_store::model::{Access, Question, StoreError, ToggleProperty, VoteDirection};
use qa_store::shim::LambdaLayer;

fn seeded_event(store: &mut LocalStore) -> (u128, String) {
    store.create_event().expect("fresh ids collided")
}

#[test]
fn created_secret_authorizes_and_only_it() {
    let mut store = LocalStore::new();
    let (eid, secret) = seeded_event(&mut store);
    assert_eq!(store.check_secret(eid, &secret), Access::Authorized);
    let mut wrong = secret.clone();
    wrong.push('x');
    assert_eq!(store.check_secret(eid, &wrong), Access::Forbidden);
    assert_eq!(store.check_secret(eid, &String::from("secret")), Access::Forbidden);
}

#[test]
fn check_secret_on_unknown_event_is_forbidden() {
    let store = LocalStore::new();
    assert_eq!(store.check_secret(7, &String::from("anything")), Access::Forbidden);
}

#[test]
fn fresh_secret_has_uuid_text_length() {
    let mut store = LocalStore::new();
    let (_, secret) = seeded_event(&mut store);
    assert_eq!(secret.len(), 36);
}

#[test]
fn asked_question_starts_clean() {
    let mut store = LocalStore::new();
    let (eid, _) = seeded_event(&mut store);
    let qid = store.ask(eid, String::from("What is X?")).unwrap();
    let q = store.get_question(qid).unwrap();
    assert_eq!(q.id, qid);
    assert_eq!(q.event_id, eid);
    assert_eq!(q.text, "What is X?");
    assert_eq!(q.votes, 0);
    assert!(!q.hidden);
    assert!(!q.answered);
}

#[test]
fn ask_on_unknown_event_is_not_found() {
    let mut store = LocalStore::new();
    assert_eq!(store.ask(42, String::from("anyone?")), Err(StoreError::NotFound));
}

#[test]
fn vote_round_trip_restores_count() {
    let mut store = LocalStore::new();
    let (eid, _) = seeded_event(&mut store);
    let qid = store.ask(eid, String::from("q")).unwrap();
    assert_eq!(store.vote(qid, VoteDirection::Up).unwrap(), 1);
    assert_eq!(store.vote(qid, VoteDirection::Up).unwrap(), 2);
    assert_eq!(store.vote(qid, VoteDirection::Up).unwrap(), 3);
    assert_eq!(store.vote(qid, VoteDirection::Down).unwrap(), 2);
    assert_eq!(store.get_question(qid).unwrap().votes, 2);
}

#[test]
fn down_vote_at_zero_stays_at_zero() {
    let mut store = LocalStore::new();
    let (eid, _) = seeded_event(&mut store);
    let qid = store.ask(eid, String::from("q")).unwrap();
    assert_eq!(store.vote(qid, VoteDirection::Down).unwrap(), 0);
    assert_eq!(store.get_question(qid).unwrap().votes, 0);
}

#[test]
fn vote_on_unknown_question_is_not_found() {
    let mut store = LocalStore::new();
    assert_eq!(store.vote(9, VoteDirection::Up), Err(StoreError::NotFound));
}

#[test]
fn toggle_twice_is_involution() {
    let mut store = LocalStore::new();
    let (eid, _) = seeded_event(&mut store);
    let qid = store.ask(eid, String::from("q")).unwrap();
    assert_eq!(store.toggle(qid, ToggleProperty::Hidden).unwrap(), true);
    assert_eq!(store.toggle(qid, ToggleProperty::Hidden).unwrap(), false);
    assert!(!store.get_question(qid).unwrap().hidden);
    assert_eq!(store.toggle(qid, ToggleProperty::Answered).unwrap(), true);
    assert_eq!(store.toggle(qid, ToggleProperty::Answered).unwrap(), false);
    assert!(!store.get_question(qid).unwrap().answered);
}

#[test]
fn toggle_named_accepts_both_flags() {
    let mut store = LocalStore::new();
    let (eid, _) = seeded_event(&mut store);
    let qid = store.ask(eid, String::from("q")).unwrap();
    assert_eq!(store.toggle_named(qid, &String::from("hidden")).unwrap(), true);
    assert_eq!(store.toggle_named(qid, &String::from("answered")).unwrap(), true);
    let q = store.get_question(qid).unwrap();
    assert!(q.hidden && q.answered);
}

#[test]
fn toggle_unknown_property_is_invalid() {
    let mut store = LocalStore::new();
    let (eid, _) = seeded_event(&mut store);
    let qid = store.ask(eid, String::from("q")).unwrap();
    assert_eq!(
        store.toggle_named(qid, &String::from("starred")),
        Err(StoreError::InvalidProperty)
    );
    assert!(!store.get_question(qid).unwrap().hidden);
}

#[test]
fn toggle_on_unknown_question_is_not_found() {
    let mut store = LocalStore::new();
    assert_eq!(store.toggle(5, ToggleProperty::Hidden), Err(StoreError::NotFound));
}

#[test]
fn hidden_questions_leave_the_visible_list_only() {
    let mut store = LocalStore::new();
    let (eid, _) = seeded_event(&mut store);
    let q1 = store.ask(eid, String::from("first")).unwrap();
    let q2 = store.ask(eid, String::from("second")).unwrap();
    store.toggle(q1, ToggleProperty::Hidden).unwrap();
    let visible = store.list_visible(eid).unwrap();
    assert_eq!(visible.len(), 1);
    assert_eq!(visible[0].id, q2);
    let all = store.list_all(eid).unwrap();
    assert_eq!(all.len(), 2);
    assert_eq!(all[0].id, q1);
    assert_eq!(all[1].id, q2);
    assert!(all[0].hidden);
}

#[test]
fn lists_on_unknown_event_are_not_found() {
    let store = LocalStore::new();
    assert!(matches!(store.list_all(3), Err(StoreError::NotFound)));
    assert!(matches!(store.list_visible(3), Err(StoreError::NotFound)));
}

#[test]
fn created_event_has_no_questions() {
    let mut store = LocalStore::new();
    let (other, _) = seeded_event(&mut store);
    store.ask(other, String::from("elsewhere")).unwrap();
    let (eid, _) = seeded_event(&mut store);
    assert_eq!(store.list_all(eid).unwrap().len(), 0);
    assert_eq!(store.list_visible(eid).unwrap().len(), 0);
}

#[test]
fn repeated_up_votes_accumulate_exactly() {
    let mut store = LocalStore::new();
    let (eid, _) = seeded_event(&mut store);
    let qid = store.ask(eid, String::from("popular")).unwrap();
    for expected in 1..=5u64 {
        assert_eq!(store.vote(qid, VoteDirection::Up).unwrap(), expected);
    }
    assert_eq!(store.get_question(qid).unwrap().votes, 5);
}

#[test]
fn votes_on_one_question_leave_the_rest_alone() {
    let mut store = LocalStore::new();
    let (eid, _) = seeded_event(&mut store);
    let q1 = store.ask(eid, String::from("first")).unwrap();
    let q2 = store.ask(eid, String::from("second")).unwrap();
    store.vote(q1, VoteDirection::Up).unwrap();
    assert_eq!(store.get_question(q2).unwrap().votes, 0);
}

#[test]
fn scenario_ask_vote_toggle_list() {
    let mut store = LocalStore::new();
    let (eid, secret) = seeded_event(&mut store);
    let q1 = store.ask(eid, String::from("What is X?")).unwrap();
    assert_eq!(store.vote(q1, VoteDirection::Up).unwrap(), 1);
    assert_eq!(store.vote(q1, VoteDirection::Up).unwrap(), 2);
    assert_eq!(store.check_secret(eid, &secret), Access::Authorized);
    assert_eq!(store.toggle(q1, ToggleProperty::Answered).unwrap(), true);
    let visible = store.list_visible(eid).unwrap();
    assert_eq!(visible.len(), 1);
    assert_eq!(visible[0].id, q1);
    assert_eq!(visible[0].votes, 2);
    assert!(visible[0].answered);
    assert!(!visible[0].hidden);
    assert_eq!(store.check_secret(eid, &String::from("wrong")), Access::Forbidden);
}

#[test]
fn fixture_seeding_reproduces_known_state() {
    let mut store = LocalStore::new();
    store.insert_event(0, String::from("secret")).unwrap();
    store
        .seed_question(Question {
            id: 1,
            event_id: 0,
            text: String::from("seeded"),
            votes: 4,
            hidden: true,
            answered: false,
            created: 1_600_000_000,
        })
        .unwrap();
    assert_eq!(store.check_secret(0, &String::from("secret")), Access::Authorized);
    let q = store.get_question(1).unwrap();
    assert_eq!(q.votes, 4);
    assert!(q.hidden);
    assert_eq!(q.created, 1_600_000_000);
    assert_eq!(store.list_visible(0).unwrap().len(), 0);
    assert_eq!(store.list_all(0).unwrap().len(), 1);
}

#[test]
fn duplicate_identifiers_are_refused() {
    let mut store = LocalStore::new();
    store.insert_event(0, String::from("a")).unwrap();
    assert_eq!(
        store.insert_event(0, String::from("b")),
        Err(StoreError::StoreUnavailable)
    );
    let q = Question {
        id: 1,
        event_id: 0,
        text: String::from("q"),
        votes: 0,
        hidden: false,
        answered: false,
        created: 0,
    };
    store.seed_question(q.duplicate()).unwrap();
    assert_eq!(store.seed_question(q.duplicate()), Err(StoreError::StoreUnavailable));
}

#[test]
fn seeding_under_unknown_event_is_not_found() {
    let mut store = LocalStore::new();
    let q = Question {
        id: 1,
        event_id: 9,
        text: String::from("q"),
        votes: 0,
        hidden: false,
        answered: false,
        created: 0,
    };
    assert_eq!(store.seed_question(q), Err(StoreError::NotFound));
    assert_eq!(store.get_question(1), Err(StoreError::NotFound));
}

#[test]
fn lambda_layer_holds_the_wrapped_service() {
    let layer = LambdaLayer::default();
    let wrapped = layer.layer(17u32);
    assert_eq!(wrapped.inner, 17u32);
}
