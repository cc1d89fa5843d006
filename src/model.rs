//! The stored records (users, polls, votes), request bodies and service errors.
use vstd::prelude::*;
use crate::ids::texts;

verus! {

/// Outcome of a failed service call.
#[derive(Debug, Clone, Copy, PartialEq, Eq, Structural)]
pub enum ApiError {
    /// A malformed identifier or missing field.
    InvalidInput,
    /// Missing or invalid credentials, or a user who may not do this.
    Unauthorized,
    /// The referenced record does not exist.
    NotFound,
    /// The underlying store refused the operation.
    StoreFailure,
}

pub open spec fn status_of(e: ApiError) -> u16 {
    match e {
        ApiError::InvalidInput => 400,
        ApiError::Unauthorized => 401,
        ApiError::NotFound => 404,
        ApiError::StoreFailure => 500,
    }
}

impl ApiError {
    /// The HTTP status that reports this error.
    pub fn status_code(&self) -> (r: u16)
        ensures
            r == status_of(*self),
    {
        match self {
            ApiError::InvalidInput => 400,
            ApiError::Unauthorized => 401,
            ApiError::NotFound => 404,
            ApiError::StoreFailure => 500,
        }
    }
}

/// A user, created on first login and never changed afterwards.
pub struct User {
    pub user_id: String,
    pub name: String,
}

pub struct UserView {
    pub user_id: Seq<char>,
    pub name: Seq<char>,
}

impl View for User {
    type V = UserView;

    open spec fn view(&self) -> UserView {
        UserView { user_id: self.user_id@, name: self.name@ }
    }
}

/// A poll. `id` is the canonical text of its object identifier and
/// `created_at` is milliseconds since the Unix epoch.
pub struct Poll {
    pub id: String,
    pub question: String,
    pub options: Vec<String>,
    pub created_by: String,
    pub created_at: i64,
    pub is_multiple_choice: bool,
    pub isactive: bool,
}

pub struct PollView {
    pub id: Seq<char>,
    pub question: Seq<char>,
    pub options: Seq<Seq<char>>,
    pub created_by: Seq<char>,
    pub created_at: i64,
    pub is_multiple_choice: bool,
    pub isactive: bool,
}

impl View for Poll {
    type V = PollView;

    open spec fn view(&self) -> PollView {
        PollView {
            id: self.id@,
            question: self.question@,
            options: texts(self.options@),
            created_by: self.created_by@,
            created_at: self.created_at,
            is_multiple_choice: self.is_multiple_choice,
            isactive: self.isactive,
        }
    }
}

/// One user's current selection in one poll: canonical identifier texts.
pub struct Vote {
    pub poll_id: String,
    pub user_id: String,
    pub option_ids: Vec<String>,
}

pub struct VoteView {
    pub poll_id: Seq<char>,
    pub user_id: Seq<char>,
    pub option_ids: Seq<Seq<char>>,
}

impl View for Vote {
    type V = VoteView;

    open spec fn view(&self) -> VoteView {
        VoteView { poll_id: self.poll_id@, user_id: self.user_id@, option_ids: texts(self.option_ids@) }
    }
}

/// A copy of a list of strings.
pub fn copy_strings(v: &Vec<String>) -> (r: Vec<String>)
    ensures
        r@ == v@,
{
    let mut r: Vec<String> = Vec::new();
    let mut i: usize = 0;
    while i < v.len()
        invariant
            i <= v@.len(),
            r@ == v@.subrange(0, i as int),
        decreases v@.len() - i,
    {
        r.push(v[i].clone());
        assert(r@ =~= v@.subrange(0, i as int + 1));
        i = i + 1;
    }
    assert(r@ =~= v@);
    r
}

impl User {
    pub fn copy(&self) -> (r: User)
        ensures
            r@ == self@,
    {
        User { user_id: self.user_id.clone(), name: self.name.clone() }
    }
}

impl Poll {
    /// A new, active poll.
    pub fn new(
        id: String,
        question: String,
        options: Vec<String>,
        created_by: String,
        created_at: i64,
        is_multiple_choice: bool,
    ) -> (r: Poll)
        ensures
            r.id == id,
            r.question == question,
            r.options == options,
            r.created_by == created_by,
            r.created_at == created_at,
            r.is_multiple_choice == is_multiple_choice,
            r.isactive,
    {
        Poll { id, question, options, created_by, created_at, is_multiple_choice, isactive: true }
    }

    pub fn copy(&self) -> (r: Poll)
        ensures
            r@ == self@,
    {
        let options = copy_strings(&self.options);
        Poll {
            id: self.id.clone(),
            question: self.question.clone(),
            options,
            created_by: self.created_by.clone(),
            created_at: self.created_at,
            is_multiple_choice: self.is_multiple_choice,
            isactive: self.isactive,
        }
    }
}

impl Vote {
    pub fn new(poll_id: String, option_ids: Vec<String>, user_id: String) -> (r: Vote)
        ensures
            r.poll_id == poll_id,
            r.option_ids == option_ids,
            r.user_id == user_id,
    {
        Vote { poll_id, user_id, option_ids }
    }

    pub fn copy(&self) -> (r: Vote)
        ensures
            r@ == self@,
    {
        let option_ids = copy_strings(&self.option_ids);
        Vote { poll_id: self.poll_id.clone(), user_id: self.user_id.clone(), option_ids }
    }
}

/// Body of a login request.
pub struct LoginData {
    pub user_id: String,
    pub name: String,
}

/// Body of a poll creation request.
pub struct CreatePollData {
    pub question: String,
    pub options: Vec<String>,
    pub created_by: String,
    pub is_multiple_choice: bool,
}

/// Body of a status change request.
pub struct ToggleStatusRequest {
    pub isactive: bool,
}

/// Body of a vote submission: identifier texts as the client sent them.
pub struct VoteData {
    pub poll_id: String,
    pub option_ids: Vec<String>,
}

/// One line of the poll list: the creator is given by display name.
pub struct PollSummary {
    pub id: String,
    pub question: String,
    pub created_by: String,
    pub created_at: i64,
    pub isactive: bool,
}

/// How many selections one option received.
pub struct OptionCount {
    pub option_id: String,
    pub count: u64,
}

} // verus!
