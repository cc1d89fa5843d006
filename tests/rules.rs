use polling_backend::model::{ApiError, Poll, User, Vote};
use polling_backend::rules::{authorize_owner, authorize_reader, creator_name, plan_vote, user_to_insert, VoteWrite};

fn poll_by(creator: &str) -> Poll {
    Poll::new(
        "64b7f0c2a1b2c3d4e5f60718".to_string(),
        "Q".to_string(),
        vec!["A".to_string()],
        creator.to_string(),
        0,
        true,
    )
}

#[test]
fn owner_check() {
    let p = poll_by("alice");
    assert_eq!(authorize_owner(Some(&p), "alice"), Ok(()));
    assert_eq!(authorize_owner(Some(&p), "bob"), Err(ApiError::Unauthorized));
    assert_eq!(authorize_owner(None, "alice"), Err(ApiError::NotFound));
}

#[test]
fn reader_check() {
    assert_eq!(authorize_reader("alice", "alice"), Ok(()));
    assert_eq!(authorize_reader("alice", "bob"), Err(ApiError::Unauthorized));
}

#[test]
fn creator_name_falls_back_to_unknown() {
    let u = User { user_id: "u".to_string(), name: "Una".to_string() };
    assert_eq!(creator_name(Some(&u)), "Una");
    assert_eq!(creator_name(None), "Unknown");
}

#[test]
fn login_inserts_only_new_users() {
    let u = User { user_id: "u".to_string(), name: "Una".to_string() };
    assert!(user_to_insert(Some(&u), "u", "Other").is_none());
    let n = user_to_insert(None, "u", "Una").unwrap();
    assert_eq!(n.user_id, "u");
    assert_eq!(n.name, "Una");
}

#[test]
fn vote_plan_replaces_or_inserts() {
    let existing = Vote::new("p".to_string(), vec!["a".to_string()], "u".to_string());
    match plan_vote(Some(&existing), "p".to_string(), vec!["b".to_string()], "u".to_string()) {
        VoteWrite::Replace(opts) => assert_eq!(opts, vec!["b".to_string()]),
        VoteWrite::Insert(_) => panic!("expected a replacement"),
    }
    match plan_vote(None, "p".to_string(), vec!["b".to_string()], "u".to_string()) {
        VoteWrite::Insert(v) => {
            assert_eq!(v.poll_id, "p");
            assert_eq!(v.user_id, "u");
            assert_eq!(v.option_ids, vec!["b".to_string()]);
        }
        VoteWrite::Replace(_) => panic!("expected an insert"),
    }
}
