use polling_backend::ids::{parse_object_id, parse_option_ids};
use polling_backend::model::{ApiError, CreatePollData, OptionCount, Vote, VoteData};
use polling_backend::store::Store;
use polling_backend::tally::tally_votes;

const POLL: &str = "64b7f0c2a1b2c3d4e5f60718";
const OTHER_POLL: &str = "64b7f0c2a1b2c3d4e5f60719";
const OPT_A: &str = "aaaaaaaaaaaaaaaaaaaaaaaa";
const OPT_B: &str = "bbbbbbbbbbbbbbbbbbbbbbbb";
const OPT_C: &str = "cccccccccccccccccccccccc";

fn poll_data(creator: &str, options: &[&str]) -> CreatePollData {
    CreatePollData {
        question: "Best colour?".to_string(),
        options: options.iter().map(|s| s.to_string()).collect(),
        created_by: creator.to_string(),
        is_multiple_choice: false,
    }
}

fn vote(poll: &str, options: &[&str]) -> VoteData {
    VoteData { poll_id: poll.to_string(), option_ids: options.iter().map(|s| s.to_string()).collect() }
}

fn store_with_poll() -> Store {
    let mut s = Store::new();
    s.store_user("alice", "Alice");
    assert!(s.create_poll(POLL, poll_data("alice", &[OPT_A, OPT_B]), 1_700_000_000_000).is_ok());
    s
}

fn counts(lines: &[OptionCount]) -> Vec<(String, u64)> {
    let mut v: Vec<(String, u64)> = lines.iter().map(|l| (l.option_id.clone(), l.count)).collect();
    v.sort();
    v
}

#[test]
fn second_login_keeps_first_name() {
    let mut s = Store::new();
    s.store_user("u1", "First");
    s.store_user("u1", "Second");
    assert!(s.create_poll(POLL, poll_data("u1", &["A", "B"]), 5).is_ok());
    let summary = s.get_all_polls_summary();
    assert_eq!(summary.len(), 1);
    assert_eq!(summary[0].created_by, "First");
}

#[test]
fn summary_names_unknown_creator() {
    let mut s = Store::new();
    assert!(s.create_poll(POLL, poll_data("ghost", &["A"]), 7).is_ok());
    let summary = s.get_all_polls_summary();
    assert_eq!(summary[0].created_by, "Unknown");
    assert_eq!(summary[0].id, POLL);
    assert_eq!(summary[0].question, "Best colour?");
    assert_eq!(summary[0].created_at, 7);
    assert!(summary[0].isactive);
}

#[test]
fn created_poll_is_active_with_no_votes() {
    let mut s = Store::new();
    assert!(s.create_poll(POLL, poll_data("alice", &["A", "B"]), 42).is_ok());
    let p = s.get_poll_by_id(POLL).ok().unwrap();
    assert!(p.isactive);
    assert!(!p.is_multiple_choice);
    assert_eq!(p.options, vec!["A".to_string(), "B".to_string()]);
    assert_eq!(p.created_at, 42);
    assert_eq!(s.get_poll_results(POLL).ok().unwrap().len(), 0);
}

#[test]
fn poll_id_is_stored_in_lower_case() {
    let mut s = Store::new();
    assert!(s.create_poll("64B7F0C2A1B2C3D4E5F60718", poll_data("alice", &["A"]), 1).is_ok());
    let p = s.get_poll_by_id(POLL).ok().unwrap();
    assert_eq!(p.id, POLL);
}

#[test]
fn duplicate_poll_id_is_a_store_failure() {
    let mut s = store_with_poll();
    let r = s.create_poll(POLL, poll_data("bob", &["X"]), 2);
    assert_eq!(r, Err(ApiError::StoreFailure));
    assert_eq!(s.get_poll_by_id(POLL).ok().unwrap().created_by, "alice");
}

#[test]
fn resubmitted_vote_replaces_selection() {
    let mut s = store_with_poll();
    assert!(s.submit_or_update_vote(&vote(POLL, &[OPT_A]), "bob").is_ok());
    assert!(s.submit_or_update_vote(&vote(POLL, &[OPT_B]), "bob").is_ok());
    let v = s.get_vote_by_poll_and_user(POLL, "bob", "bob").ok().unwrap();
    assert_eq!(v.option_ids, vec![OPT_B.to_string()]);
    let results = s.get_poll_results(POLL).ok().unwrap();
    assert_eq!(counts(&results), vec![(OPT_B.to_string(), 1)]);
    assert_eq!(s.get_voted_polls("bob").len(), 1);
}

#[test]
fn results_count_each_selected_option() {
    let mut s = store_with_poll();
    assert!(s.submit_or_update_vote(&vote(POLL, &[OPT_A]), "u1").is_ok());
    assert!(s.submit_or_update_vote(&vote(POLL, &[OPT_A, OPT_B]), "u2").is_ok());
    assert!(s.submit_or_update_vote(&vote(POLL, &[OPT_B]), "u3").is_ok());
    assert!(s.submit_or_update_vote(&vote(OTHER_POLL, &[OPT_C]), "u1").is_ok());
    let results = s.get_poll_results(POLL).ok().unwrap();
    assert_eq!(counts(&results), vec![(OPT_A.to_string(), 2), (OPT_B.to_string(), 2)]);
    assert!(results.iter().all(|l| l.option_id != OPT_C));
}

#[test]
fn malformed_option_ids_are_dropped() {
    let mut s = store_with_poll();
    assert!(s.submit_or_update_vote(&vote(POLL, &["nope", OPT_A, "zz"]), "bob").is_ok());
    let v = s.get_vote_by_poll_and_user(POLL, "bob", "bob").ok().unwrap();
    assert_eq!(v.option_ids, vec![OPT_A.to_string()]);
}

#[test]
fn repeated_option_in_a_vote_counts_once() {
    let mut s = store_with_poll();
    assert!(s.submit_or_update_vote(&vote(POLL, &[OPT_A, OPT_A]), "u1").is_ok());
    let v = s.get_vote_by_poll_and_user(POLL, "u1", "u1").ok().unwrap();
    assert_eq!(v.option_ids, vec![OPT_A.to_string()]);
    assert_eq!(counts(&s.get_poll_results(POLL).ok().unwrap()), vec![(OPT_A.to_string(), 1)]);
}

#[test]
fn repeated_toggle_and_reset_by_creator_succeed() {
    let mut s = store_with_poll();
    assert_eq!(s.toggle_poll_status(POLL, false, "alice"), Ok(()));
    assert_eq!(s.toggle_poll_status(POLL, false, "alice"), Ok(()));
    assert!(!s.get_poll_by_id(POLL).ok().unwrap().isactive);
    assert_eq!(s.reset_votes(POLL, "alice"), Ok(()));
    assert_eq!(s.reset_votes(POLL, "alice"), Ok(()));
}

#[test]
fn toggle_requires_the_creator() {
    let mut s = store_with_poll();
    assert_eq!(s.toggle_poll_status(POLL, false, "mallory"), Err(ApiError::Unauthorized));
    assert!(s.get_poll_by_id(POLL).ok().unwrap().isactive);
    assert_eq!(s.toggle_poll_status(POLL, false, "alice"), Ok(()));
    assert!(!s.get_poll_by_id(POLL).ok().unwrap().isactive);
    assert_eq!(s.toggle_poll_status(POLL, true, "alice"), Ok(()));
    assert!(s.get_poll_by_id(POLL).ok().unwrap().isactive);
}

#[test]
fn toggle_missing_poll_is_not_found() {
    let mut s = store_with_poll();
    assert_eq!(s.toggle_poll_status(OTHER_POLL, false, "alice"), Err(ApiError::NotFound));
}

#[test]
fn reset_by_creator_clears_results() {
    let mut s = store_with_poll();
    assert!(s.submit_or_update_vote(&vote(POLL, &[OPT_A]), "u1").is_ok());
    assert!(s.submit_or_update_vote(&vote(POLL, &[OPT_B]), "u2").is_ok());
    assert!(s.submit_or_update_vote(&vote(OTHER_POLL, &[OPT_C]), "u1").is_ok());
    assert_eq!(s.reset_votes(POLL, "alice"), Ok(()));
    assert_eq!(s.get_poll_results(POLL).ok().unwrap().len(), 0);
    assert_eq!(s.get_vote_by_poll_and_user(POLL, "u1", "u1").err(), Some(ApiError::NotFound));
    let other = s.get_poll_results(OTHER_POLL).ok().unwrap();
    assert_eq!(counts(&other), vec![(OPT_C.to_string(), 1)]);
}

#[test]
fn reset_by_other_user_keeps_votes() {
    let mut s = store_with_poll();
    assert!(s.submit_or_update_vote(&vote(POLL, &[OPT_A]), "u1").is_ok());
    assert_eq!(s.reset_votes(POLL, "mallory"), Err(ApiError::Unauthorized));
    let results = s.get_poll_results(POLL).ok().unwrap();
    assert_eq!(counts(&results), vec![(OPT_A.to_string(), 1)]);
    assert_eq!(s.reset_votes(OTHER_POLL, "alice"), Err(ApiError::NotFound));
}

#[test]
fn malformed_ids_are_invalid_input() {
    let mut s = store_with_poll();
    for bad in ["", "xyz", "64b7f0c2a1b2c3d4e5f6071", "64b7f0c2a1b2c3d4e5f607189", "64b7f0c2a1b2c3d4e5f6071g"] {
        assert_eq!(s.get_poll_by_id(bad).err(), Some(ApiError::InvalidInput));
        assert_eq!(s.toggle_poll_status(bad, false, "alice"), Err(ApiError::InvalidInput));
        assert_eq!(s.reset_votes(bad, "alice"), Err(ApiError::InvalidInput));
        assert_eq!(s.get_poll_results(bad).err(), Some(ApiError::InvalidInput));
        assert_eq!(s.submit_or_update_vote(&vote(bad, &[OPT_A]), "bob"), Err(ApiError::InvalidInput));
        assert_eq!(s.get_vote_by_poll_and_user(bad, "bob", "bob").err(), Some(ApiError::InvalidInput));
        assert_eq!(s.create_poll(bad, poll_data("alice", &["A"]), 1), Err(ApiError::InvalidInput));
    }
    assert_eq!(ApiError::InvalidInput.status_code(), 400);
}

#[test]
fn vote_of_another_user_is_unauthorized() {
    let mut s = store_with_poll();
    assert!(s.submit_or_update_vote(&vote(POLL, &[OPT_A]), "bob").is_ok());
    assert_eq!(s.get_vote_by_poll_and_user(POLL, "bob", "eve").err(), Some(ApiError::Unauthorized));
    assert_eq!(s.get_vote_by_poll_and_user("bad", "bob", "eve").err(), Some(ApiError::Unauthorized));
    assert_eq!(s.get_vote_by_poll_and_user(POLL, "carol", "carol").err(), Some(ApiError::NotFound));
}

#[test]
fn polls_by_user_and_voted_polls() {
    let mut s = store_with_poll();
    assert!(s.create_poll(OTHER_POLL, poll_data("bob", &["X"]), 3).is_ok());
    let mine = s.get_polls_by_user("alice");
    assert_eq!(mine.len(), 1);
    assert_eq!(mine[0].id, POLL);
    assert_eq!(s.get_polls_by_user("nobody").len(), 0);
    assert!(s.submit_or_update_vote(&vote(OTHER_POLL, &[OPT_C]), "carol").is_ok());
    let voted = s.get_voted_polls("carol");
    assert_eq!(voted.len(), 1);
    assert_eq!(voted[0].id, OTHER_POLL);
    assert_eq!(s.get_voted_polls("alice").len(), 0);
}

#[test]
fn status_codes() {
    assert_eq!(ApiError::InvalidInput.status_code(), 400);
    assert_eq!(ApiError::Unauthorized.status_code(), 401);
    assert_eq!(ApiError::NotFound.status_code(), 404);
    assert_eq!(ApiError::StoreFailure.status_code(), 500);
}

#[test]
fn object_id_parsing() {
    assert_eq!(parse_object_id("ABCDEF0123456789abcdefAB"), Some("abcdef0123456789abcdefab".to_string()));
    assert_eq!(parse_object_id(POLL), Some(POLL.to_string()));
    assert_eq!(parse_object_id("64b7f0c2a1b2c3d4e5f6071"), None);
    assert_eq!(parse_object_id("64b7f0c2a1b2c3d4e5f6071\u{e9}"), None);
    assert_eq!(parse_object_id(""), None);
    let ids = vec!["bad".to_string(), "AAAAAAAAAAAAAAAAAAAAAAAA".to_string(), OPT_B.to_string()];
    assert_eq!(parse_option_ids(&ids), vec![OPT_A.to_string(), OPT_B.to_string()]);
    let repeated = vec![OPT_A.to_string(), OPT_B.to_string(), "AAAAAAAAAAAAAAAAAAAAAAAA".to_string()];
    assert_eq!(parse_option_ids(&repeated), vec![OPT_A.to_string(), OPT_B.to_string()]);
}

#[test]
fn tally_counts_repeated_option_once() {
    let votes = vec![
        Vote::new(POLL.to_string(), vec![OPT_A.to_string(), OPT_A.to_string()], "u1".to_string()),
        Vote::new(OTHER_POLL.to_string(), vec![OPT_A.to_string()], "u2".to_string()),
    ];
    let lines = tally_votes(&votes, &POLL.to_string());
    assert_eq!(counts(&lines), vec![(OPT_A.to_string(), 1)]);
    assert_eq!(tally_votes(&Vec::new(), &POLL.to_string()).len(), 0);
}
