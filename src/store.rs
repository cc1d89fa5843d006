//! An in-memory document store holding the users, polls and votes
//! collections, and the user, poll and vote services over it.
use vstd::prelude::*;
use crate::ids::{canonical_id, canonical_ids, is_object_id_text, parse_object_id, parse_option_ids, texts};
use crate::model::{
    ApiError, CreatePollData, OptionCount, Poll, PollSummary, PollView, User, UserView, Vote,
    VoteData, VoteView,
};
use crate::rules::{authorize_owner, user_to_insert};
use crate::tally::{is_tally, tally_votes, vote_views};

verus! {

pub struct StoreState {
    pub users: Seq<UserView>,
    pub polls: Seq<PollView>,
    pub votes: Seq<VoteView>,
}

pub open spec fn has_user(users: Seq<UserView>, uid: Seq<char>) -> bool {
    exists|i: int| 0 <= i < users.len() && #[trigger] users[i].user_id == uid
}

pub open spec fn has_poll(polls: Seq<PollView>, id: Seq<char>) -> bool {
    exists|i: int| 0 <= i < polls.len() && #[trigger] polls[i].id == id
}

/// The poll whose identifier is `id` (meaningful where `has_poll` holds).
pub open spec fn poll_with_id(polls: Seq<PollView>, id: Seq<char>) -> PollView {
    polls[choose|i: int| 0 <= i < polls.len() && #[trigger] polls[i].id == id]
}

pub open spec fn is_pair(v: VoteView, poll: Seq<char>, uid: Seq<char>) -> bool {
    v.poll_id == poll && v.user_id == uid
}

pub open spec fn has_vote(votes: Seq<VoteView>, poll: Seq<char>, uid: Seq<char>) -> bool {
    exists|i: int| 0 <= i < votes.len() && is_pair(#[trigger] votes[i], poll, uid)
}

/// The vote of user `uid` in poll `poll` (meaningful where `has_vote` holds).
pub open spec fn vote_of(votes: Seq<VoteView>, poll: Seq<char>, uid: Seq<char>) -> VoteView {
    votes[choose|i: int| 0 <= i < votes.len() && is_pair(#[trigger] votes[i], poll, uid)]
}

/// The display name of user `uid`, or "Unknown" where there is no such user.
pub open spec fn display_name(users: Seq<UserView>, uid: Seq<char>) -> Seq<char> {
    if has_user(users, uid) {
        users[choose|i: int| 0 <= i < users.len() && #[trigger] users[i].user_id == uid].name
    } else {
        seq!['U', 'n', 'k', 'n', 'o', 'w', 'n']
    }
}

/// The polls created by `uid`, in store order.
pub open spec fn polls_by(polls: Seq<PollView>, uid: Seq<char>) -> Seq<PollView>
    decreases polls.len(),
{
    if polls.len() == 0 {
        Seq::empty()
    } else {
        let prev = polls_by(polls.drop_last(), uid);
        if polls.last().created_by == uid {
            prev.push(polls.last())
        } else {
            prev
        }
    }
}

/// The polls in which `uid` has a vote, in store order.
pub open spec fn polls_voted(polls: Seq<PollView>, votes: Seq<VoteView>, uid: Seq<char>) -> Seq<PollView>
    decreases polls.len(),
{
    if polls.len() == 0 {
        Seq::empty()
    } else {
        let prev = polls_voted(polls.drop_last(), votes, uid);
        if has_vote(votes, polls.last().id, uid) {
            prev.push(polls.last())
        } else {
            prev
        }
    }
}

/// The votes that do not belong to poll `poll`.
pub open spec fn drop_poll(votes: Seq<VoteView>, poll: Seq<char>) -> Seq<VoteView>
    decreases votes.len(),
{
    if votes.len() == 0 {
        Seq::empty()
    } else {
        let prev = drop_poll(votes.drop_last(), poll);
        if votes.last().poll_id == poll {
            prev
        } else {
            prev.push(votes.last())
        }
    }
}

impl StoreState {
    /// Records are keyed: one user per user id, one poll per id, one vote per
    /// (poll, user) pair.
    pub open spec fn wf(self) -> bool {
        &&& forall|a: int, b: int|
            0 <= a < b < self.users.len() ==> #[trigger] self.users[a].user_id != #[trigger] self.users[b].user_id
        &&& forall|a: int, b: int|
            0 <= a < b < self.polls.len() ==> #[trigger] self.polls[a].id != #[trigger] self.polls[b].id
        &&& forall|a: int, b: int|
            0 <= a < b < self.votes.len() ==> !is_pair(
                #[trigger] self.votes[a],
                self.votes[b].poll_id,
                #[trigger] self.votes[b].user_id,
            )
    }

    /// Login: the user is created if absent and left as is otherwise.
    pub open spec fn login(self, uid: Seq<char>, name: Seq<char>) -> StoreState {
        if has_user(self.users, uid) {
            self
        } else {
            StoreState { users: self.users.push(UserView { user_id: uid, name }), ..self }
        }
    }

    pub open spec fn add_poll(self, p: PollView) -> StoreState {
        StoreState { polls: self.polls.push(p), ..self }
    }

    /// Poll `id` with its active flag set to `active`.
    pub open spec fn with_status(self, id: Seq<char>, active: bool) -> StoreState {
        StoreState {
            polls: self.polls.map_values(
                |p: PollView| if p.id == id { PollView { isactive: active, ..p } } else { p },
            ),
            ..self
        }
    }

    /// The vote of `uid` in `poll` set to `options`: replaced where it exists,
    /// added otherwise.
    pub open spec fn with_vote(self, poll: Seq<char>, uid: Seq<char>, options: Seq<Seq<char>>) -> StoreState {
        if has_vote(self.votes, poll, uid) {
            StoreState {
                votes: self.votes.map_values(
                    |v: VoteView| if is_pair(v, poll, uid) { VoteView { option_ids: options, ..v } } else { v },
                ),
                ..self
            }
        } else {
            StoreState {
                votes: self.votes.push(VoteView { poll_id: poll, user_id: uid, option_ids: options }),
                ..self
            }
        }
    }

    /// All votes of poll `poll` deleted.
    pub open spec fn reset(self, poll: Seq<char>) -> StoreState {
        StoreState { votes: drop_poll(self.votes, poll), ..self }
    }
}

/// The users, polls and votes collections.
pub struct Store {
    users: Vec<User>,
    polls: Vec<Poll>,
    votes: Vec<Vote>,
}

impl View for Store {
    type V = StoreState;

    closed spec fn view(&self) -> StoreState {
        StoreState {
            users: self.users@.map_values(|u: User| u@),
            polls: self.polls@.map_values(|p: Poll| p@),
            votes: vote_views(self.votes@),
        }
    }
}

/// `drop_poll` keeps a subsequence: distinct positions of the result come
/// from distinct, increasing positions of the input.
proof fn lemma_drop_poll_keeps_order(votes: Seq<VoteView>, poll: Seq<char>)
    requires
        forall|a: int, b: int|
            0 <= a < b < votes.len() ==> !is_pair(#[trigger] votes[a], votes[b].poll_id, #[trigger] votes[b].user_id),
    ensures
        forall|a: int, b: int|
            0 <= a < b < drop_poll(votes, poll).len() ==> !is_pair(
                #[trigger] drop_poll(votes, poll)[a],
                drop_poll(votes, poll)[b].poll_id,
                #[trigger] drop_poll(votes, poll)[b].user_id,
            ),
        forall|a: int| 0 <= a < drop_poll(votes, poll).len() ==> exists|b: int|
            0 <= b < votes.len() && #[trigger] drop_poll(votes, poll)[a] == #[trigger] votes[b],
    decreases votes.len(),
{
    if votes.len() > 0 {
        let init = votes.drop_last();
        lemma_drop_poll_keeps_order(init, poll);
        let d = drop_poll(votes, poll);
        let di = drop_poll(init, poll);
        assert forall|a: int| 0 <= a < d.len() implies exists|b: int| 0 <= b < votes.len() && #[trigger] d[a] == #[trigger] votes[b] by {
            if a < di.len() {
                let b = choose|b: int| 0 <= b < init.len() && #[trigger] di[a] == #[trigger] init[b];
                assert(d[a] == votes[b]);
            } else {
                assert(d[a] == votes[votes.len() - 1]);
            }
        }
        if votes.last().poll_id != poll {
            assert forall|a: int, b: int|
                0 <= a < b < d.len() implies !is_pair(#[trigger] d[a], d[b].poll_id, #[trigger] d[b].user_id) by {
                if b == d.len() - 1 {
                    let c = choose|c: int| 0 <= c < init.len() && #[trigger] di[a] == #[trigger] init[c];
                    assert(d[a] == votes[c]);
                    assert(!is_pair(votes[c], votes[votes.len() - 1].poll_id, votes[votes.len() - 1].user_id));
                } else {
                    assert(d[a] == di[a] && d[b] == di[b]);
                }
            }
        }
    }
}

impl Store {
    pub fn new() -> (r: Store)
        ensures
            r@.wf(),
            r@.users.len() == 0,
            r@.polls.len() == 0,
            r@.votes.len() == 0,
    {
        Store { users: Vec::new(), polls: Vec::new(), votes: Vec::new() }
    }

    fn find_user(&self, uid: &String) -> (k: Option<usize>)
        ensures
            k matches Some(k) ==> k < self@.users.len() && self@.users[k as int].user_id == uid@,
            k is None ==> !has_user(self@.users, uid@),
    {
        let mut m: usize = 0;
        while m < self.users.len()
            invariant
                m <= self.users@.len(),
                forall|n: int| 0 <= n < m ==> self.users@[n].user_id@ != uid@,
            decreases self.users@.len() - m,
        {
            if self.users[m].user_id == *uid {
                return Some(m);
            }
            m = m + 1;
        }
        proof {
            assert forall|n: int| 0 <= n < self@.users.len() implies #[trigger] self@.users[n].user_id != uid@ by {
                assert(self@.users[n] == self.users@[n]@);
            }
        }
        None
    }

    fn find_poll(&self, id: &String) -> (k: Option<usize>)
        ensures
            k matches Some(k) ==> k < self@.polls.len() && self@.polls[k as int].id == id@,
            k is None ==> !has_poll(self@.polls, id@),
    {
        let mut m: usize = 0;
        while m < self.polls.len()
            invariant
                m <= self.polls@.len(),
                forall|n: int| 0 <= n < m ==> self.polls@[n].id@ != id@,
            decreases self.polls@.len() - m,
        {
            if self.polls[m].id == *id {
                return Some(m);
            }
            m = m + 1;
        }
        proof {
            assert forall|n: int| 0 <= n < self@.polls.len() implies #[trigger] self@.polls[n].id != id@ by {
                assert(self@.polls[n] == self.polls@[n]@);
            }
        }
        None
    }

    fn find_vote(&self, poll: &String, uid: &String) -> (k: Option<usize>)
        ensures
            k matches Some(k) ==> k < self@.votes.len() && is_pair(self@.votes[k as int], poll@, uid@),
            k is None ==> !has_vote(self@.votes, poll@, uid@),
    {
        let mut m: usize = 0;
        while m < self.votes.len()
            invariant
                m <= self.votes@.len(),
                forall|n: int| 0 <= n < m ==> !is_pair(self.votes@[n]@, poll@, uid@),
            decreases self.votes@.len() - m,
        {
            if self.votes[m].poll_id == *poll && self.votes[m].user_id == *uid {
                return Some(m);
            }
            m = m + 1;
        }
        proof {
            assert forall|n: int| 0 <= n < self@.votes.len() implies !is_pair(#[trigger] self@.votes[n], poll@, uid@) by {
                assert(self@.votes[n] == self.votes@[n]@);
            }
        }
        None
    }

    /// Records a login: creates the user if absent, leaves an existing user
    /// (and its name) unchanged.
    pub fn store_user(&mut self, user_id: &str, name: &str)
        requires
            old(self)@.wf(),
        ensures
            final(self)@.wf(),
            final(self)@ == old(self)@.login(user_id@, name@),
    {
        let uid = user_id.to_owned();
        let existing = match self.find_user(&uid) {
            Some(k) => Some(&self.users[k]),
            None => None,
        };
        match user_to_insert(existing, user_id, name) {
            None => {
                assert(self@ == old(self)@);
                assert(self@.wf());
            },
            Some(u) => {
                self.users.push(u);
                assert(self@.users =~= old(self)@.users.push(UserView { user_id: user_id@, name: name@ }));
                assert forall|a: int, b: int|
                    0 <= a < b < self@.users.len() implies #[trigger] self@.users[a].user_id
                        != #[trigger] self@.users[b].user_id by {
                    if b == self@.users.len() - 1 {
                        assert(old(self)@.users[a].user_id != user_id@);
                    } else {
                        assert(old(self)@.users[a].user_id != old(self)@.users[b].user_id);
                    }
                }
                assert(self@.polls == old(self)@.polls);
                assert(self@.votes == old(self)@.votes);
                assert(self@.wf());
            },
        }
    }

    /// Stores a new, active poll under identifier `id`.
    pub fn create_poll(&mut self, id: &str, data: CreatePollData, created_at: i64) -> (r: Result<(), ApiError>)
        requires
            old(self)@.wf(),
        ensures
            final(self)@.wf(),
            r is Err ==> final(self)@ == old(self)@,
            r is Ok <==> is_object_id_text(id@) && !has_poll(old(self)@.polls, canonical_id(id@)),
            r == Err::<(), ApiError>(ApiError::InvalidInput) <==> !is_object_id_text(id@),
            r == Err::<(), ApiError>(ApiError::StoreFailure) <==> is_object_id_text(id@) && has_poll(
                old(self)@.polls,
                canonical_id(id@),
            ),
            r is Ok ==> final(self)@ == old(self)@.add_poll(
                PollView {
                    id: canonical_id(id@),
                    question: data.question@,
                    options: texts(data.options@),
                    created_by: data.created_by@,
                    created_at,
                    is_multiple_choice: data.is_multiple_choice,
                    isactive: true,
                },
            ),
    {
        let key = match parse_object_id(id) {
            Some(k) => k,
            None => return Err(ApiError::InvalidInput),
        };
        if self.find_poll(&key).is_some() {
            return Err(ApiError::StoreFailure);
        }
        let ghost key_view = key@;
        let poll = Poll::new(key, data.question, data.options, data.created_by, created_at, data.is_multiple_choice);
        let ghost pv = poll@;
        self.polls.push(poll);
        assert(self@.polls =~= old(self)@.polls.push(pv));
        assert forall|a: int, b: int|
            0 <= a < b < self@.polls.len() implies #[trigger] self@.polls[a].id != #[trigger] self@.polls[b].id by {
            if b == self@.polls.len() - 1 {
                assert(old(self)@.polls[a].id != key_view);
            } else {
                assert(old(self)@.polls[a].id != old(self)@.polls[b].id);
            }
        }
        assert(self@.users == old(self)@.users);
        assert(self@.votes == old(self)@.votes);
        Ok(())
    }

    /// The poll with identifier `poll_id`.
    pub fn get_poll_by_id(&self, poll_id: &str) -> (r: Result<Poll, ApiError>)
        requires
            self@.wf(),
        ensures
            r is Ok <==> is_object_id_text(poll_id@) && has_poll(self@.polls, canonical_id(poll_id@)),
            r == Err::<Poll, ApiError>(ApiError::InvalidInput) <==> !is_object_id_text(poll_id@),
            r == Err::<Poll, ApiError>(ApiError::NotFound) <==> is_object_id_text(poll_id@) && !has_poll(
                self@.polls,
                canonical_id(poll_id@),
            ),
            r matches Ok(p) ==> has_poll(self@.polls, canonical_id(poll_id@)) && p@ == poll_with_id(
                self@.polls,
                canonical_id(poll_id@),
            ),
    {
        let key = match parse_object_id(poll_id) {
            Some(k) => k,
            None => return Err(ApiError::InvalidInput),
        };
        match self.find_poll(&key) {
            Some(k) => {
                proof {
                    self.lemma_poll_with_id(k as int);
                }
                Ok(self.polls[k].copy())
            },
            None => Err(ApiError::NotFound),
        }
    }

    proof fn lemma_poll_with_id(&self, k: int)
        requires
            self@.wf(),
            0 <= k < self@.polls.len(),
        ensures
            poll_with_id(self@.polls, self@.polls[k].id) == self@.polls[k],
            self@.polls[k] == self.polls@[k]@,
    {
        let ps = self@.polls;
        let j = choose|i: int| 0 <= i < ps.len() && #[trigger] ps[i].id == ps[k].id;
        assert(0 <= j < ps.len() && ps[j].id == ps[k].id);
        if j < k {
            assert(ps[j].id != ps[k].id);
        } else if k < j {
            assert(ps[k].id != ps[j].id);
        }
    }

    /// Sets the active flag of poll `poll_id`; only its creator may.
    pub fn toggle_poll_status(&mut self, poll_id: &str, isactive: bool, requester: &str) -> (r: Result<(), ApiError>)
        requires
            old(self)@.wf(),
        ensures
            final(self)@.wf(),
            r is Err ==> final(self)@ == old(self)@,
            r is Ok <==> is_object_id_text(poll_id@) && has_poll(old(self)@.polls, canonical_id(poll_id@))
                && poll_with_id(old(self)@.polls, canonical_id(poll_id@)).created_by == requester@,
            r == Err::<(), ApiError>(ApiError::InvalidInput) <==> !is_object_id_text(poll_id@),
            r == Err::<(), ApiError>(ApiError::NotFound) <==> is_object_id_text(poll_id@) && !has_poll(
                old(self)@.polls,
                canonical_id(poll_id@),
            ),
            r == Err::<(), ApiError>(ApiError::Unauthorized) <==> is_object_id_text(poll_id@) && has_poll(
                old(self)@.polls,
                canonical_id(poll_id@),
            ) && poll_with_id(old(self)@.polls, canonical_id(poll_id@)).created_by != requester@,
            r is Ok ==> final(self)@ == old(self)@.with_status(canonical_id(poll_id@), isactive),
    {
        let key = match parse_object_id(poll_id) {
            Some(k) => k,
            None => return Err(ApiError::InvalidInput),
        };
        let k = match self.find_poll(&key) {
            Some(k) => k,
            None => return Err(ApiError::NotFound),
        };
        proof {
            self.lemma_poll_with_id(k as int);
        }
        if let Err(e) = authorize_owner(Some(&self.polls[k]), requester) {
            return Err(e);
        }
        let mut p = self.polls[k].copy();
        p.isactive = isactive;
        let ghost pv = p@;
        self.polls.set(k, p);
        proof {
            let want = old(self)@.with_status(key@, isactive).polls;
            assert forall|n: int| 0 <= n < want.len() implies #[trigger] self@.polls[n] == want[n] by {
                if n != k {
                    assert(self.polls@[n] == old(self).polls@[n]);
                    if n < k {
                        assert(old(self)@.polls[n].id != old(self)@.polls[k as int].id);
                    } else {
                        assert(old(self)@.polls[k as int].id != old(self)@.polls[n].id);
                    }
                }
            }
            assert(self@.polls =~= want);
            assert forall|a: int, b: int|
                0 <= a < b < self@.polls.len() implies #[trigger] self@.polls[a].id != #[trigger] self@.polls[b].id by {
                assert(old(self)@.polls[a].id != old(self)@.polls[b].id);
            }
        }
        assert(self@.users == old(self)@.users);
        assert(self@.votes == old(self)@.votes);
        Ok(())
    }


    /// Records `user_id`'s selection in poll `data.poll_id`: replaces the
    /// options of an existing vote, or adds a vote. Malformed option
    /// identifiers are dropped.
    pub fn submit_or_update_vote(&mut self, data: &VoteData, user_id: &str) -> (r: Result<(), ApiError>)
        requires
            old(self)@.wf(),
        ensures
            final(self)@.wf(),
            r is Err <==> !is_object_id_text(data.poll_id@),
            r is Err ==> r == Err::<(), ApiError>(ApiError::InvalidInput) && final(self)@ == old(self)@,
            r is Ok ==> final(self)@ == old(self)@.with_vote(
                canonical_id(data.poll_id@),
                user_id@,
                canonical_ids(texts(data.option_ids@)),
            ),
    {
        let poll = match parse_object_id(data.poll_id.as_str()) {
            Some(k) => k,
            None => return Err(ApiError::InvalidInput),
        };
        let options = parse_option_ids(&data.option_ids);
        let uid = user_id.to_owned();
        let ghost want = old(self)@.with_vote(poll@, uid@, texts(options@));
        match self.find_vote(&poll, &uid) {
            Some(k) => {
                let v = Vote::new(poll, options, uid);
                let ghost vv = v@;
                self.votes.set(k, v);
                proof {
                    let ov = old(self)@.votes;
                    assert forall|n: int| 0 <= n < ov.len() implies #[trigger] self@.votes[n] == want.votes[n] by {
                        if n != k {
                            assert(self.votes@[n] == old(self).votes@[n]);
                            if n < k {
                                assert(!is_pair(ov[n], ov[k as int].poll_id, ov[k as int].user_id));
                            } else {
                                assert(!is_pair(ov[k as int], ov[n].poll_id, ov[n].user_id));
                            }
                        }
                    }
                    assert(self@.votes =~= want.votes);
                    assert forall|a: int, b: int|
                        0 <= a < b < self@.votes.len() implies !is_pair(
                            #[trigger] self@.votes[a],
                            self@.votes[b].poll_id,
                            #[trigger] self@.votes[b].user_id,
                        ) by {
                        assert(!is_pair(ov[a], ov[b].poll_id, ov[b].user_id));
                    }
                }
            },
            None => {
                let v = Vote::new(poll, options, uid);
                let ghost vv = v@;
                self.votes.push(v);
                proof {
                    let ov = old(self)@.votes;
                    assert(self@.votes =~= ov.push(vv));
                    assert forall|a: int, b: int|
                        0 <= a < b < self@.votes.len() implies !is_pair(
                            #[trigger] self@.votes[a],
                            self@.votes[b].poll_id,
                            #[trigger] self@.votes[b].user_id,
                        ) by {
                        if b < ov.len() {
                            assert(!is_pair(ov[a], ov[b].poll_id, ov[b].user_id));
                        } else {
                            assert(!is_pair(ov[a], vv.poll_id, vv.user_id));
                        }
                    }
                }
            },
        }
        assert(self@.users == old(self)@.users);
        assert(self@.polls == old(self)@.polls);
        Ok(())
    }

    /// The vote of `user_id` in poll `poll_id`; only that user may read it.
    pub fn get_vote_by_poll_and_user(&self, poll_id: &str, user_id: &str, requester: &str) -> (r: Result<Vote, ApiError>)
        requires
            self@.wf(),
        ensures
            r is Ok <==> requester@ == user_id@ && is_object_id_text(poll_id@) && has_vote(
                self@.votes,
                canonical_id(poll_id@),
                user_id@,
            ),
            r == Err::<Vote, ApiError>(ApiError::Unauthorized) <==> requester@ != user_id@,
            r == Err::<Vote, ApiError>(ApiError::InvalidInput) <==> requester@ == user_id@
                && !is_object_id_text(poll_id@),
            r == Err::<Vote, ApiError>(ApiError::NotFound) <==> requester@ == user_id@
                && is_object_id_text(poll_id@) && !has_vote(self@.votes, canonical_id(poll_id@), user_id@),
            r matches Ok(v) ==> has_vote(self@.votes, canonical_id(poll_id@), user_id@) && v@ == vote_of(
                self@.votes,
                canonical_id(poll_id@),
                user_id@,
            ),
    {
        let who = requester.to_owned();
        let uid = user_id.to_owned();
        if who != uid {
            return Err(ApiError::Unauthorized);
        }
        let poll = match parse_object_id(poll_id) {
            Some(k) => k,
            None => return Err(ApiError::InvalidInput),
        };
        match self.find_vote(&poll, &uid) {
            Some(k) => {
                proof {
                    let vs = self@.votes;
                    let j = choose|i: int| 0 <= i < vs.len() && is_pair(#[trigger] vs[i], poll@, uid@);
                    if j < k {
                        assert(!is_pair(vs[j], vs[k as int].poll_id, vs[k as int].user_id));
                    } else if k < j {
                        assert(!is_pair(vs[k as int], vs[j].poll_id, vs[j].user_id));
                    }
                    assert(vs[k as int] == self.votes@[k as int]@);
                }
                Ok(self.votes[k].copy())
            },
            None => Err(ApiError::NotFound),
        }
    }

    /// Deletes every vote of poll `poll_id`; only its creator may.
    pub fn reset_votes(&mut self, poll_id: &str, requester: &str) -> (r: Result<(), ApiError>)
        requires
            old(self)@.wf(),
        ensures
            final(self)@.wf(),
            r is Err ==> final(self)@ == old(self)@,
            r is Ok <==> is_object_id_text(poll_id@) && has_poll(old(self)@.polls, canonical_id(poll_id@))
                && poll_with_id(old(self)@.polls, canonical_id(poll_id@)).created_by == requester@,
            r == Err::<(), ApiError>(ApiError::InvalidInput) <==> !is_object_id_text(poll_id@),
            r == Err::<(), ApiError>(ApiError::NotFound) <==> is_object_id_text(poll_id@) && !has_poll(
                old(self)@.polls,
                canonical_id(poll_id@),
            ),
            r == Err::<(), ApiError>(ApiError::Unauthorized) <==> is_object_id_text(poll_id@) && has_poll(
                old(self)@.polls,
                canonical_id(poll_id@),
            ) && poll_with_id(old(self)@.polls, canonical_id(poll_id@)).created_by != requester@,
            r is Ok ==> final(self)@ == old(self)@.reset(canonical_id(poll_id@)),
    {
        let key = match parse_object_id(poll_id) {
            Some(k) => k,
            None => return Err(ApiError::InvalidInput),
        };
        let k = match self.find_poll(&key) {
            Some(k) => k,
            None => return Err(ApiError::NotFound),
        };
        proof {
            self.lemma_poll_with_id(k as int);
        }
        if let Err(e) = authorize_owner(Some(&self.polls[k]), requester) {
            return Err(e);
        }
        let mut kept: Vec<Vote> = Vec::new();
        let mut i: usize = 0;
        while i < self.votes.len()
            invariant
                i <= self.votes@.len(),
                self@ == old(self)@,
                old(self)@.wf(),
                vote_views(kept@) == drop_poll(vote_views(self.votes@).take(i as int), key@),
            decreases self.votes@.len() - i,
        {
            let ghost all = vote_views(self.votes@);
            proof {
                assert(all.take(i as int + 1).drop_last() =~= all.take(i as int));
                assert(all.take(i as int + 1).last() == self.votes@[i as int]@);
            }
            if self.votes[i].poll_id != key {
                let v = self.votes[i].copy();
                let ghost before = kept@;
                kept.push(v);
                proof {
                    assert(vote_views(kept@) =~= vote_views(before).push(v@));
                }
            }
            i = i + 1;
        }
        proof {
            assert(vote_views(self.votes@).take(i as int) =~= vote_views(self.votes@));
            lemma_drop_poll_keeps_order(old(self)@.votes, key@);
        }
        self.votes = kept;
        assert(self@.users == old(self)@.users);
        assert(self@.polls == old(self)@.polls);
        Ok(())
    }


    /// Per-option counts of the votes cast in poll `poll_id`; options without
    /// a selection are left out.
    pub fn get_poll_results(&self, poll_id: &str) -> (r: Result<Vec<OptionCount>, ApiError>)
        requires
            self@.wf(),
        ensures
            r is Err <==> !is_object_id_text(poll_id@),
            r is Err ==> r == Err::<Vec<OptionCount>, ApiError>(ApiError::InvalidInput),
            r matches Ok(lines) ==> is_tally(lines@, self@.votes, canonical_id(poll_id@)),
    {
        let key = match parse_object_id(poll_id) {
            Some(k) => k,
            None => return Err(ApiError::InvalidInput),
        };
        Ok(tally_votes(&self.votes, &key))
    }

    /// The polls created by `user_id`.
    pub fn get_polls_by_user(&self, user_id: &str) -> (r: Vec<Poll>)
        ensures
            r@.map_values(|p: Poll| p@) == polls_by(self@.polls, user_id@),
    {
        let uid = user_id.to_owned();
        let mut r: Vec<Poll> = Vec::new();
        let mut i: usize = 0;
        while i < self.polls.len()
            invariant
                i <= self.polls@.len(),
                uid@ == user_id@,
                r@.map_values(|p: Poll| p@) == polls_by(self@.polls.take(i as int), uid@),
            decreases self.polls@.len() - i,
        {
            proof {
                assert(self@.polls.take(i as int + 1).drop_last() =~= self@.polls.take(i as int));
                assert(self@.polls.take(i as int + 1).last() == self.polls@[i as int]@);
            }
            if self.polls[i].created_by == uid {
                let p = self.polls[i].copy();
                let ghost before = r@;
                r.push(p);
                assert(r@.map_values(|p: Poll| p@) =~= before.map_values(|p: Poll| p@).push(p@));
            }
            i = i + 1;
        }
        assert(self@.polls.take(i as int) =~= self@.polls);
        r
    }

    /// The polls in which `user_id` has voted.
    pub fn get_voted_polls(&self, user_id: &str) -> (r: Vec<Poll>)
        ensures
            r@.map_values(|p: Poll| p@) == polls_voted(self@.polls, self@.votes, user_id@),
    {
        let uid = user_id.to_owned();
        let mut r: Vec<Poll> = Vec::new();
        let mut i: usize = 0;
        while i < self.polls.len()
            invariant
                i <= self.polls@.len(),
                uid@ == user_id@,
                r@.map_values(|p: Poll| p@) == polls_voted(self@.polls.take(i as int), self@.votes, uid@),
            decreases self.polls@.len() - i,
        {
            proof {
                assert(self@.polls.take(i as int + 1).drop_last() =~= self@.polls.take(i as int));
                assert(self@.polls.take(i as int + 1).last() == self.polls@[i as int]@);
            }
            if self.find_vote(&self.polls[i].id, &uid).is_some() {
                let p = self.polls[i].copy();
                let ghost before = r@;
                r.push(p);
                assert(r@.map_values(|p: Poll| p@) =~= before.map_values(|p: Poll| p@).push(p@));
            }
            i = i + 1;
        }
        assert(self@.polls.take(i as int) =~= self@.polls);
        r
    }

    /// One summary line per poll, in store order, naming the creator by
    /// display name.
    pub fn get_all_polls_summary(&self) -> (r: Vec<PollSummary>)
        requires
            self@.wf(),
        ensures
            r@.len() == self@.polls.len(),
            forall|k: int|
                0 <= k < r@.len() ==> {
                    let p = #[trigger] self@.polls[k];
                    &&& r@[k].id@ == p.id
                    &&& r@[k].question@ == p.question
                    &&& r@[k].created_by@ == display_name(self@.users, p.created_by)
                    &&& r@[k].created_at == p.created_at
                    &&& r@[k].isactive == p.isactive
                },
    {
        let mut r: Vec<PollSummary> = Vec::new();
        let mut i: usize = 0;
        while i < self.polls.len()
            invariant
                i <= self.polls@.len(),
                self@.wf(),
                r@.len() == i,
                forall|k: int|
                    0 <= k < i ==> {
                        let p = #[trigger] self@.polls[k];
                        &&& r@[k].id@ == p.id
                        &&& r@[k].question@ == p.question
                        &&& r@[k].created_by@ == display_name(self@.users, p.created_by)
                        &&& r@[k].created_at == p.created_at
                        &&& r@[k].isactive == p.isactive
                    },
            decreases self.polls@.len() - i,
        {
            let poll = &self.polls[i];
            let name = match self.find_user(&poll.created_by) {
                Some(u) => {
                    proof {
                        let us = self@.users;
                        let j = choose|j: int| 0 <= j < us.len() && #[trigger] us[j].user_id == poll.created_by@;
                        if j < u {
                            assert(us[j].user_id != us[u as int].user_id);
                        } else if u < j {
                            assert(us[u as int].user_id != us[j].user_id);
                        }
                        assert(us[u as int] == self.users@[u as int]@);
                    }
                    self.users[u].name.clone()
                },
                None => {
                    proof {
                        reveal_strlit("Unknown");
                    }
                    "Unknown".to_owned()
                },
            };
            let line = PollSummary {
                id: poll.id.clone(),
                question: poll.question.clone(),
                created_by: name,
                created_at: poll.created_at,
                isactive: poll.isactive,
            };
            let ghost before = r@;
            r.push(line);
            proof {
                assert(self@.polls[i as int] == poll@);
                assert forall|k: int| 0 <= k < i + 1 implies {
                    let p = #[trigger] self@.polls[k];
                    &&& r@[k].id@ == p.id
                    &&& r@[k].question@ == p.question
                    &&& r@[k].created_by@ == display_name(self@.users, p.created_by)
                    &&& r@[k].created_at == p.created_at
                    &&& r@[k].isactive == p.isactive
                } by {
                    if k < i {
                        assert(r@[k] == before[k]);
                    }
                }
            }
            i = i + 1;
        }
        r
    }

}

} // verus!
