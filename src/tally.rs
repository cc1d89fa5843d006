//! Per-option vote counts for a poll.
use vstd::prelude::*;
use crate::ids::texts;
use crate::model::{OptionCount, Vote, VoteView};

verus! {

pub open spec fn vote_views(s: Seq<Vote>) -> Seq<VoteView> {
    s.map_values(|v: Vote| v@)
}

/// How many votes cast in poll `poll` select option `o`: a vote that
/// selects several options counts once for each of them, and once only for
/// an option it lists twice.
pub open spec fn selections(votes: Seq<VoteView>, poll: Seq<char>, o: Seq<char>) -> nat
    decreases votes.len(),
{
    if votes.len() == 0 {
        0
    } else {
        selections(votes.drop_last(), poll, o) + if votes.last().poll_id == poll
            && votes.last().option_ids.contains(o) {
            1nat
        } else {
            0nat
        }
    }
}

/// The result of tallying poll `poll`: one line per option with at least one
/// selection, none twice, each with its exact count.
pub open spec fn is_tally(r: Seq<OptionCount>, votes: Seq<VoteView>, poll: Seq<char>) -> bool {
    &&& forall|a: int, b: int|
        0 <= a < b < r.len() ==> #[trigger] r[a].option_id@ != #[trigger] r[b].option_id@
    &&& forall|k: int|
        0 <= k < r.len() ==> #[trigger] r[k].count == selections(votes, poll, r[k].option_id@)
            && r[k].count > 0
    &&& forall|o: Seq<char>|
        #[trigger] selections(votes, poll, o) > 0 ==> exists|k: int|
            0 <= k < r.len() && r[k].option_id@ == o
}

proof fn lemma_selections_bound(votes: Seq<VoteView>, poll: Seq<char>, o: Seq<char>)
    ensures
        selections(votes, poll, o) <= votes.len(),
    decreases votes.len(),
{
    if votes.len() > 0 {
        lemma_selections_bound(votes.drop_last(), poll, o);
    }
}

proof fn lemma_contains_push(s: Seq<Seq<char>>, a: Seq<char>, x: Seq<char>)
    ensures
        s.push(a).contains(x) <==> s.contains(x) || x == a,
{
    if s.contains(x) {
        let k = choose|k: int| 0 <= k < s.len() && s[k] == x;
        assert(s.push(a)[k] == x);
    }
    if x == a {
        assert(s.push(a)[s.len() as int] == x);
    }
    if s.push(a).contains(x) {
        let k = choose|k: int| 0 <= k < s.push(a).len() && s.push(a)[k] == x;
        if k < s.len() {
            assert(s[k] == x);
        }
    }
}

proof fn lemma_contains_prefix(s: Seq<Seq<char>>, n: int, x: Seq<char>)
    requires
        0 <= n <= s.len(),
        s.take(n).contains(x),
    ensures
        s.contains(x),
{
    let k = choose|k: int| 0 <= k < s.take(n).len() && s.take(n)[k] == x;
    assert(s[k] == x);
}

/// Selections of `o` counted after the first `i` votes and the first `j`
/// options of vote `i`.
spec fn partial(votes: Seq<VoteView>, poll: Seq<char>, i: int, j: int, o: Seq<char>) -> nat {
    selections(votes.take(i), poll, o) + if i < votes.len() && votes[i].poll_id == poll {
        if votes[i].option_ids.take(j).contains(o) { 1nat } else { 0nat }
    } else {
        0nat
    }
}

fn find_option(r: &Vec<OptionCount>, o: &String) -> (k: Option<usize>)
    ensures
        k matches Some(k) ==> k < r@.len() && r@[k as int].option_id@ == o@,
        k is None ==> forall|m: int| 0 <= m < r@.len() ==> r@[m].option_id@ != o@,
{
    let mut m: usize = 0;
    while m < r.len()
        invariant
            m <= r@.len(),
            forall|n: int| 0 <= n < m ==> r@[n].option_id@ != o@,
        decreases r@.len() - m,
    {
        if r[m].option_id == *o {
            return Some(m);
        }
        m = m + 1;
    }
    None
}

/// Whether `ids[0..j]` holds `o`.
fn seen_before(ids: &Vec<String>, j: usize, o: &String) -> (r: bool)
    requires
        j <= ids@.len(),
    ensures
        r == texts(ids@).take(j as int).contains(o@),
{
    let mut m: usize = 0;
    while m < j
        invariant
            j <= ids@.len(),
            m <= j,
            forall|n: int| 0 <= n < m ==> ids@[n]@ != o@,
        decreases j - m,
    {
        if ids[m] == *o {
            assert(texts(ids@).take(j as int)[m as int] == o@);
            return true;
        }
        m = m + 1;
    }
    proof {
        if texts(ids@).take(j as int).contains(o@) {
            let k = choose|k: int| 0 <= k < j && texts(ids@).take(j as int)[k] == o@;
            assert(ids@[k]@ == o@);
        }
    }
    false
}

/// Counts, for poll `poll_id`, the votes that select each option.
/// Options that nobody selected do not appear.
pub fn tally_votes(votes: &Vec<Vote>, poll_id: &String) -> (r: Vec<OptionCount>)
    ensures
        is_tally(r@, vote_views(votes@), poll_id@),
{
    let ghost vv = vote_views(votes@);
    let ghost poll = poll_id@;
    let mut r: Vec<OptionCount> = Vec::new();
    let n = votes.len();
    let mut i: usize = 0;
    while i < votes.len()
        invariant
            n == votes@.len(),
            i <= votes@.len(),
            vv == vote_views(votes@),
            poll == poll_id@,
            forall|a: int, b: int|
                0 <= a < b < r@.len() ==> #[trigger] r@[a].option_id@ != #[trigger] r@[b].option_id@,
            forall|k: int|
                0 <= k < r@.len() ==> #[trigger] r@[k].count == selections(vv.take(i as int), poll, r@[k].option_id@)
                    && r@[k].count > 0,
            forall|o: Seq<char>|
                #[trigger] selections(vv.take(i as int), poll, o) > 0 ==> exists|k: int|
                    0 <= k < r@.len() && r@[k].option_id@ == o,
        decreases votes@.len() - i,
    {
        let vote = &votes[i];
        proof {
            assert(vv.take(i as int + 1).drop_last() =~= vv.take(i as int));
            assert(vv[i as int] == vote@);
        }
        if vote.poll_id == *poll_id {
            let mut j: usize = 0;
            while j < vote.option_ids.len()
                invariant
                    n == votes@.len(),
                    i < votes@.len(),
                    j <= vote.option_ids@.len(),
                    *vote == votes@[i as int],
                    vv == vote_views(votes@),
                    vv[i as int] == vote@,
                    vote.poll_id@ == poll,
                    poll == poll_id@,
                    vv.take(i as int + 1).drop_last() == vv.take(i as int),
                    forall|a: int, b: int|
                        0 <= a < b < r@.len() ==> #[trigger] r@[a].option_id@ != #[trigger] r@[b].option_id@,
                    forall|k: int|
                        0 <= k < r@.len() ==> #[trigger] r@[k].count == partial(vv, poll, i as int, j as int, r@[k].option_id@)
                            && r@[k].count > 0,
                    forall|o: Seq<char>|
                        #[trigger] partial(vv, poll, i as int, j as int, o) > 0 ==> exists|k: int|
                            0 <= k < r@.len() && r@[k].option_id@ == o,
                decreases vote.option_ids@.len() - j,
            {
                let o = &vote.option_ids[j];
                let ghost ids = vote@.option_ids;
                let seen = seen_before(&vote.option_ids, j, o);
                proof {
                    assert(ids.take(j as int + 1) =~= ids.take(j as int).push(o@));
                    assert forall|x: Seq<char>|
                        #[trigger] partial(vv, poll, i as int, j as int + 1, x) == partial(vv, poll, i as int, j as int, x)
                            + if x == o@ && !seen { 1nat } else { 0nat } by {
                        lemma_contains_push(ids.take(j as int), o@, x);
                    }
                }
                if !seen {
                    match find_option(&r, o) {
                        Some(k) => {
                            proof {
                                let x = r@[k as int].option_id@;
                                lemma_selections_bound(vv.take(i as int + 1), poll, x);
                                assert(vv.take(i as int + 1).len() == i + 1);
                                lemma_contains_push(ids.take(j as int), o@, x);
                                assert(ids.take(j as int + 1).contains(x));
                                lemma_contains_prefix(ids, j as int + 1, x);
                                assert(vv.take(i as int + 1).last() == vv[i as int]);
                                assert(partial(vv, poll, i as int, j as int + 1, x) <= selections(vv.take(i as int + 1), poll, x));
                                assert(i + 1 <= votes@.len() <= usize::MAX);
                                assert(r@[k as int].count + 1 <= u64::MAX);
                            }
                            let c = r[k].count + 1;
                            let line = OptionCount { option_id: r[k].option_id.clone(), count: c };
                            let ghost old_r = r@;
                            r.set(k, line);
                            proof {
                                assert forall|x: Seq<char>|
                                    #[trigger] partial(vv, poll, i as int, j as int + 1, x) > 0 implies exists|k2: int|
                                        0 <= k2 < r@.len() && r@[k2].option_id@ == x by {
                                    if x != o@ {
                                        assert(partial(vv, poll, i as int, j as int, x) > 0);
                                        let k2 = choose|k2: int| 0 <= k2 < old_r.len() && old_r[k2].option_id@ == x;
                                        assert(r@[k2].option_id@ == x);
                                    } else {
                                        assert(r@[k as int].option_id@ == x);
                                    }
                                }
                            }
                        },
                        None => {
                            let line = OptionCount { option_id: o.clone(), count: 1 };
                            let ghost old_r = r@;
                            r.push(line);
                            proof {
                                assert(partial(vv, poll, i as int, j as int, o@) == 0) by {
                                    if partial(vv, poll, i as int, j as int, o@) > 0 {
                                        let k2 = choose|k2: int| 0 <= k2 < old_r.len() && old_r[k2].option_id@ == o@;
                                    }
                                }
                                assert forall|x: Seq<char>|
                                    #[trigger] partial(vv, poll, i as int, j as int + 1, x) > 0 implies exists|k2: int|
                                        0 <= k2 < r@.len() && r@[k2].option_id@ == x by {
                                    if x != o@ {
                                        assert(partial(vv, poll, i as int, j as int, x) > 0);
                                        let k2 = choose|k2: int| 0 <= k2 < old_r.len() && old_r[k2].option_id@ == x;
                                        assert(r@[k2].option_id@ == x);
                                    } else {
                                        assert(r@[old_r.len() as int].option_id@ == x);
                                    }
                                }
                            }
                        },
                    }
                }
                j = j + 1;
            }
            proof {
                assert(vote@.option_ids.take(j as int) =~= vote@.option_ids);
                assert forall|x: Seq<char>|
                    #[trigger] selections(vv.take(i as int + 1), poll, x) == partial(vv, poll, i as int, j as int, x) by {
                    assert(vv.take(i as int + 1).last() == vv[i as int]);
                }
            }
        } else {
            proof {
                assert forall|x: Seq<char>|
                    #[trigger] selections(vv.take(i as int + 1), poll, x) == selections(vv.take(i as int), poll, x) by {
                    assert(vv.take(i as int + 1).last() == vv[i as int]);
                }
            }
        }
        i = i + 1;
    }
    assert(vv.take(votes@.len() as int) =~= vv);
    r
}

} // verus!
