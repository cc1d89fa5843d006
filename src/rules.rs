//! Decisions the request handlers take between store reads and writes.
use vstd::prelude::*;
use crate::model::{ApiError, Poll, User, Vote, VoteView};

verus! {

/// Whether `requester` may change poll `poll`: the poll must exist and have
/// been created by `requester`.
pub fn authorize_owner(poll: Option<&Poll>, requester: &str) -> (r: Result<(), ApiError>)
    ensures
        poll is None ==> r == Err::<(), ApiError>(ApiError::NotFound),
        poll matches Some(p) ==> (r is Ok <==> p.created_by@ == requester@),
        poll matches Some(p) ==> (r is Err ==> r == Err::<(), ApiError>(ApiError::Unauthorized)),
{
    match poll {
        None => Err(ApiError::NotFound),
        Some(p) => {
            let who = requester.to_owned();
            if p.created_by == who {
                Ok(())
            } else {
                Err(ApiError::Unauthorized)
            }
        },
    }
}

/// Whether the user named by the token may read the data of `user_id`.
pub fn authorize_reader(token_user: &str, user_id: &str) -> (r: Result<(), ApiError>)
    ensures
        r is Ok <==> token_user@ == user_id@,
        r is Err ==> r == Err::<(), ApiError>(ApiError::Unauthorized),
{
    let a = token_user.to_owned();
    let b = user_id.to_owned();
    if a == b {
        Ok(())
    } else {
        Err(ApiError::Unauthorized)
    }
}

/// The name shown for a poll's creator: the user's name, or "Unknown".
pub fn creator_name(user: Option<&User>) -> (r: String)
    ensures
        user matches Some(u) ==> r@ == u.name@,
        user is None ==> r@ == seq!['U', 'n', 'k', 'n', 'o', 'w', 'n'],
{
    match user {
        Some(u) => u.name.clone(),
        None => {
            proof {
                reveal_strlit("Unknown");
            }
            "Unknown".to_owned()
        },
    }
}

/// The user to insert at login, given whether the user id is already stored:
/// an existing user is never touched.
pub fn user_to_insert(existing: Option<&User>, user_id: &str, name: &str) -> (r: Option<User>)
    ensures
        existing is Some ==> r is None,
        existing is None ==> (r matches Some(u) && u.user_id@ == user_id@ && u.name@ == name@),
{
    match existing {
        Some(_) => None,
        None => Some(User { user_id: user_id.to_owned(), name: name.to_owned() }),
    }
}

/// How a vote submission is written.
pub enum VoteWrite {
    /// Replace the options of the existing vote for the (poll, user) pair.
    Replace(Vec<String>),
    /// Insert a new vote.
    Insert(Vote),
}

/// The write that records `user_id`'s selection `option_ids` in poll
/// `poll_id`, given the vote already stored for that pair, if any.
pub fn plan_vote(existing: Option<&Vote>, poll_id: String, option_ids: Vec<String>, user_id: String) -> (r: VoteWrite)
    ensures
        existing is Some ==> r == VoteWrite::Replace(option_ids),
        existing is None ==> (r matches VoteWrite::Insert(v) && v@ == (VoteView {
            poll_id: poll_id@,
            user_id: user_id@,
            option_ids: crate::ids::texts(option_ids@),
        })),
{
    match existing {
        Some(_) => VoteWrite::Replace(option_ids),
        None => VoteWrite::Insert(Vote::new(poll_id, option_ids, user_id)),
    }
}

} // verus!
