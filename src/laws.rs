//! Properties that relate several store operations.
use vstd::prelude::*;
use crate::model::{OptionCount, PollView};
use crate::store::{
    display_name, drop_poll, has_poll, has_user, has_vote, is_pair, poll_with_id, vote_of, StoreState,
};
use crate::tally::{is_tally, selections};

verus! {

/// A second login with the same user id and another name changes nothing: the
/// user keeps the name of its first login.
pub proof fn lemma_login_keeps_first_name(s: StoreState, uid: Seq<char>, first: Seq<char>, second: Seq<char>)
    ensures
        s.login(uid, first).login(uid, second) == s.login(uid, first),
        !has_user(s.users, uid) ==> display_name(s.login(uid, first).login(uid, second).users, uid) == first,
{
    let t = s.login(uid, first);
    if !has_user(s.users, uid) {
        let n = s.users.len() as int;
        assert(t.users[n].user_id == uid);
        assert(has_user(t.users, uid));
        let j = choose|i: int| 0 <= i < t.users.len() && #[trigger] t.users[i].user_id == uid;
        if j < n {
            assert(s.users[j].user_id == uid);
        }
    }
}

/// A newly stored poll is found by its id, exactly as it was stored.
pub proof fn lemma_new_poll_is_found(s: StoreState, p: PollView)
    requires
        s.wf(),
        !has_poll(s.polls, p.id),
    ensures
        s.add_poll(p).wf(),
        has_poll(s.add_poll(p).polls, p.id),
        poll_with_id(s.add_poll(p).polls, p.id) == p,
{
    let t = s.add_poll(p);
    let n = s.polls.len() as int;
    assert(t.polls[n].id == p.id);
    let j = choose|i: int| 0 <= i < t.polls.len() && #[trigger] t.polls[i].id == p.id;
    if j < n {
        assert(s.polls[j].id == p.id);
    }
    assert forall|a: int, b: int| 0 <= a < b < t.polls.len() implies #[trigger] t.polls[a].id != #[trigger] t.polls[b].id by {
        if b == n {
            assert(s.polls[a].id != p.id);
        } else {
            assert(s.polls[a].id != s.polls[b].id);
        }
    }
}

proof fn lemma_with_vote(s: StoreState, poll: Seq<char>, uid: Seq<char>, options: Seq<Seq<char>>)
    requires
        s.wf(),
    ensures
        s.with_vote(poll, uid, options).wf(),
        has_vote(s.with_vote(poll, uid, options).votes, poll, uid),
        forall|i: int|
            0 <= i < s.with_vote(poll, uid, options).votes.len() && is_pair(
                #[trigger] s.with_vote(poll, uid, options).votes[i],
                poll,
                uid,
            ) ==> s.with_vote(poll, uid, options).votes[i].option_ids == options,
{
    let t = s.with_vote(poll, uid, options);
    if has_vote(s.votes, poll, uid) {
        let j = choose|i: int| 0 <= i < s.votes.len() && is_pair(#[trigger] s.votes[i], poll, uid);
        assert(is_pair(t.votes[j], poll, uid));
        assert forall|a: int, b: int|
            0 <= a < b < t.votes.len() implies !is_pair(#[trigger] t.votes[a], t.votes[b].poll_id, #[trigger] t.votes[b].user_id) by {
            assert(!is_pair(s.votes[a], s.votes[b].poll_id, s.votes[b].user_id));
        }
    } else {
        let n = s.votes.len() as int;
        assert(is_pair(t.votes[n], poll, uid));
        assert forall|a: int, b: int|
            0 <= a < b < t.votes.len() implies !is_pair(#[trigger] t.votes[a], t.votes[b].poll_id, #[trigger] t.votes[b].user_id) by {
            if b == n {
                assert(!is_pair(s.votes[a], poll, uid));
            } else {
                assert(!is_pair(s.votes[a], s.votes[b].poll_id, s.votes[b].user_id));
            }
        }
        assert forall|i: int| 0 <= i < t.votes.len() && is_pair(#[trigger] t.votes[i], poll, uid) implies t.votes[i].option_ids == options by {
            if i < n {
                assert(is_pair(s.votes[i], poll, uid));
            }
        }
    }
}

/// Voting in a poll and then voting again with another selection leaves
/// exactly one vote for that poll and user, holding the latest selection.
pub proof fn lemma_resubmission_keeps_one_vote(
    s: StoreState,
    poll: Seq<char>,
    uid: Seq<char>,
    first: Seq<Seq<char>>,
    second: Seq<Seq<char>>,
)
    requires
        s.wf(),
    ensures
        ({
            let t = s.with_vote(poll, uid, first).with_vote(poll, uid, second);
            &&& t.wf()
            &&& has_vote(t.votes, poll, uid)
            &&& vote_of(t.votes, poll, uid).option_ids == second
            &&& forall|a: int, b: int|
                0 <= a < t.votes.len() && 0 <= b < t.votes.len() && is_pair(#[trigger] t.votes[a], poll, uid)
                    && is_pair(#[trigger] t.votes[b], poll, uid) ==> a == b
        }),
{
    let m = s.with_vote(poll, uid, first);
    lemma_with_vote(s, poll, uid, first);
    lemma_with_vote(m, poll, uid, second);
    let t = m.with_vote(poll, uid, second);
    assert forall|a: int, b: int|
        0 <= a < t.votes.len() && 0 <= b < t.votes.len() && is_pair(#[trigger] t.votes[a], poll, uid)
            && is_pair(#[trigger] t.votes[b], poll, uid) implies a == b by {
        if a < b {
            assert(!is_pair(t.votes[a], t.votes[b].poll_id, t.votes[b].user_id));
        } else if b < a {
            assert(!is_pair(t.votes[b], t.votes[a].poll_id, t.votes[a].user_id));
        }
    }
}

/// After the creator sets a poll's active flag, reading the poll back shows
/// the new flag and nothing else changed.
pub proof fn lemma_status_change_is_visible(s: StoreState, id: Seq<char>, active: bool)
    requires
        s.wf(),
        has_poll(s.polls, id),
    ensures
        s.with_status(id, active).wf(),
        has_poll(s.with_status(id, active).polls, id),
        poll_with_id(s.with_status(id, active).polls, id) == (PollView { isactive: active, ..poll_with_id(s.polls, id) }),
{
    let t = s.with_status(id, active);
    let j = choose|i: int| 0 <= i < s.polls.len() && #[trigger] s.polls[i].id == id;
    assert(t.polls[j].id == id);
    let k = choose|i: int| 0 <= i < t.polls.len() && #[trigger] t.polls[i].id == id;
    assert(s.polls[k].id == id);
    if j < k {
        assert(s.polls[j].id != s.polls[k].id);
    } else if k < j {
        assert(s.polls[k].id != s.polls[j].id);
    }
    assert forall|a: int, b: int| 0 <= a < b < t.polls.len() implies #[trigger] t.polls[a].id != #[trigger] t.polls[b].id by {
        assert(s.polls[a].id != s.polls[b].id);
    }
}

proof fn lemma_no_selections_after_reset(votes: Seq<crate::model::VoteView>, poll: Seq<char>, o: Seq<char>)
    ensures
        selections(drop_poll(votes, poll), poll, o) == 0,
    decreases votes.len(),
{
    if votes.len() > 0 {
        lemma_no_selections_after_reset(votes.drop_last(), poll, o);
        let prev = drop_poll(votes.drop_last(), poll);
        if votes.last().poll_id != poll {
            assert(prev.push(votes.last()).drop_last() =~= prev);
        }
    }
}

/// An option that no vote of the poll selects has no line in the poll's
/// results: zero counts are not listed.
pub proof fn lemma_unselected_option_absent(
    lines: Seq<OptionCount>,
    votes: Seq<crate::model::VoteView>,
    poll: Seq<char>,
    o: Seq<char>,
)
    requires
        is_tally(lines, votes, poll),
        selections(votes, poll, o) == 0,
    ensures
        forall|k: int| 0 <= k < lines.len() ==> #[trigger] lines[k].option_id@ != o,
{
    assert forall|k: int| 0 <= k < lines.len() implies #[trigger] lines[k].option_id@ != o by {
        assert(lines[k].count == selections(votes, poll, lines[k].option_id@));
    }
}

/// Once a poll's votes are reset, its results are empty.
pub proof fn lemma_results_empty_after_reset(s: StoreState, poll: Seq<char>, lines: Seq<OptionCount>)
    requires
        is_tally(lines, s.reset(poll).votes, poll),
    ensures
        lines.len() == 0,
{
    if lines.len() > 0 {
        lemma_no_selections_after_reset(s.votes, poll, lines[0].option_id@);
        assert(lines[0].count == selections(s.reset(poll).votes, poll, lines[0].option_id@));
    }
}

} // verus!
