//! A first-completion combinator over operations that may or may not yield.
//! Cancellation takes effect only at a suspension point, so an operation that
//! holds its thread cannot be abandoned once started.

use vstd::prelude::*;

use crate::timeline::{earliest, first_min, is_first_min, lemma_first_min_unique, as_ints};

verus! {

/// One branch of a first-completion race: an operation of a given duration,
/// which either suspends cooperatively while it waits or holds its thread
/// for the whole duration.
#[derive(Clone, Copy, Debug, PartialEq, Eq)]
pub struct Branch {
    pub duration_ms: u64,
    pub yields: bool,
}

/// A cooperative timer of `duration_ms`.
pub fn timer(duration_ms: u64) -> (r: Branch)
    ensures
        r == (Branch { duration_ms, yields: true }),
{
    Branch { duration_ms, yields: true }
}

/// What a race resolved to: the index of the branch that won, when the race
/// returned, and for each branch whether it ran to completion.
pub struct RaceOutcome {
    pub winner: usize,
    pub resolved_at_ms: u64,
    pub completed: Vec<bool>,
}

pub open spec fn has_blocking(s: Seq<Branch>) -> bool {
    exists|i: int| 0 <= i < s.len() && !s[i].yields
}

pub open spec fn durations(s: Seq<Branch>) -> Seq<int> {
    Seq::new(s.len(), |i: int| s[i].duration_ms as int)
}

/// The rule that picks the winner. All branches are polled once, in order, at
/// time zero. A branch that does not yield finishes inside its first poll, so
/// the first such branch wins no matter how long it takes: the race cannot
/// abandon it once it has started. When every branch yields, the one with the
/// shortest duration wins, ties going to the earlier branch.
pub open spec fn winner_rule(s: Seq<Branch>, w: int) -> bool {
    &&& 0 <= w < s.len()
    &&& if has_blocking(s) {
        &&& !s[w].yields
        &&& forall|j: int| 0 <= j < w ==> s[j].yields
    } else {
        is_first_min(durations(s), w)
    }
}

pub proof fn lemma_winner_unique(s: Seq<Branch>, a: int, b: int)
    requires
        winner_rule(s, a),
        winner_rule(s, b),
    ensures
        a == b,
{
    if !has_blocking(s) {
        lemma_first_min_unique(durations(s), a, b);
    }
}

pub open spec fn race_winner(s: Seq<Branch>) -> int {
    choose|w: int| winner_rule(s, w)
}

/// When the race returns: the moment its winner completes.
pub open spec fn race_time(s: Seq<Branch>) -> int {
    s[race_winner(s)].duration_ms as int
}

/// Runs a first-completion race over `branches`. Every branch but the winner
/// is cancelled, so its completion is never observed.
pub fn race(branches: &Vec<Branch>) -> (r: RaceOutcome)
    requires
        branches@.len() > 0,
    ensures
        r.winner as int == race_winner(branches@),
        r.resolved_at_ms as int == race_time(branches@),
        r.completed@.len() == branches@.len(),
        forall|i: int| 0 <= i < branches@.len() ==> (r.completed@[i] <==> i == r.winner),
{
    let n = branches.len();
    let mut blocking: usize = n;
    let mut i: usize = 0;
    while i < n
        invariant
            n == branches@.len(),
            i <= n,
            blocking == n || (blocking < i && !branches@[blocking as int].yields),
            forall|j: int| 0 <= j < i && j < blocking ==> branches@[j].yields,
        decreases n - i,
    {
        if blocking == n && !branches[i].yields {
            blocking = i;
        }
        i = i + 1;
    }
    let winner: usize;
    if blocking < n {
        winner = blocking;
        assert(has_blocking(branches@));
    } else {
        let mut times: Vec<u64> = Vec::new();
        let mut k: usize = 0;
        while k < n
            invariant
                n == branches@.len(),
                k <= n,
                times@.len() == k,
                forall|j: int| 0 <= j < k ==> times@[j] == branches@[j].duration_ms,
            decreases n - k,
        {
            times.push(branches[k].duration_ms);
            k = k + 1;
        }
        winner = earliest(&times);
        assert(as_ints(times@) =~= durations(branches@));
        assert(!has_blocking(branches@)) by {
            if has_blocking(branches@) {
                let b = choose|b: int| 0 <= b < branches@.len() && !branches@[b].yields;
                assert(branches@[b].yields);
            }
        }
    }
    proof {
        assert(winner_rule(branches@, winner as int));
        lemma_winner_unique(branches@, winner as int, race_winner(branches@));
    }
    let mut completed: Vec<bool> = Vec::new();
    let mut k: usize = 0;
    while k < n
        invariant
            n == branches@.len(),
            k <= n,
            winner < n,
            completed@.len() == k,
            forall|j: int| 0 <= j < k ==> (completed@[j] <==> j == winner),
        decreases n - k,
    {
        completed.push(k == winner);
        k = k + 1;
    }
    RaceOutcome { winner, resolved_at_ms: branches[winner].duration_ms, completed }
}

/// A cooperative timer raced against an operation that also yields resolves
/// at the shorter of the two durations, and only the branch that finished
/// first is ever completed: the other is cancelled at its suspension point.
pub proof fn lemma_yielding_race_resolves_at_min(d1: u64, d2: u64)
    ensures
        ({
            let s = seq![Branch { duration_ms: d1, yields: true }, Branch { duration_ms: d2, yields: true }];
            &&& race_time(s) == if d1 <= d2 { d1 as int } else { d2 as int }
            &&& race_winner(s) == if d1 <= d2 { 0int } else { 1int }
        }),
{
    let s = seq![Branch { duration_ms: d1, yields: true }, Branch { duration_ms: d2, yields: true }];
    let w: int = if d1 <= d2 { 0 } else { 1 };
    assert(!has_blocking(s)) by {
        if has_blocking(s) {
            let b = choose|b: int| 0 <= b < s.len() && !s[b].yields;
            assert(s[b].yields);
        }
    }
    assert(winner_rule(s, w));
    lemma_winner_unique(s, w, race_winner(s));
}

/// A cooperative timer raced against an operation that holds its thread, and
/// takes longer than the timer, resolves only when that operation completes:
/// once started it cannot be abandoned, whichever branch is polled first.
pub proof fn lemma_blocking_race_outlasts_timer(d1: u64, d2: u64)
    requires
        d2 > d1,
    ensures
        ({
            let s = seq![Branch { duration_ms: d1, yields: true }, Branch { duration_ms: d2, yields: false }];
            race_winner(s) == 1 && race_time(s) == d2
        }),
        ({
            let s = seq![Branch { duration_ms: d2, yields: false }, Branch { duration_ms: d1, yields: true }];
            race_winner(s) == 0 && race_time(s) == d2
        }),
{
    let s = seq![Branch { duration_ms: d1, yields: true }, Branch { duration_ms: d2, yields: false }];
    assert(has_blocking(s)) by {
        assert(!s[1].yields);
    }
    assert(winner_rule(s, 1));
    lemma_winner_unique(s, 1, race_winner(s));
    let t = seq![Branch { duration_ms: d2, yields: false }, Branch { duration_ms: d1, yields: true }];
    assert(has_blocking(t)) by {
        assert(!t[0].yields);
    }
    assert(winner_rule(t, 0));
    lemma_winner_unique(t, 0, race_winner(t));
}

} // verus!
