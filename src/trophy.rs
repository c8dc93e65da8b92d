//! Milestone trophies: locked records that unlock, once and for good, when
//! the score reaches their threshold.

use vstd::prelude::*;

verus! {

/// A milestone: the score that unlocks it, and whether it has been reached.
#[derive(Clone, Copy, Debug, PartialEq, Eq, Structural)]
pub struct Trophy {
    pub threshold: i32,
    pub unlocked: bool,
}

/// The label under a trophy, which counts down to its threshold.
#[derive(Clone, Copy, Debug, PartialEq, Eq, Structural)]
pub struct TrophyText {
    pub score: i32,
}

/// `t` after a check at `score`.
pub open spec fn checked(t: Trophy, score: int) -> Trophy {
    Trophy { threshold: t.threshold, unlocked: t.unlocked || score >= t.threshold }
}

/// Every trophy of `ts` after a check at `score`.
pub open spec fn all_checked(ts: Seq<Trophy>, score: int) -> Seq<Trophy> {
    ts.map_values(|t: Trophy| checked(t, score))
}

/// The indices, in order, of the trophies of `ts` that a check at `score`
/// unlocks.
pub open spec fn newly_unlocked(ts: Seq<Trophy>, score: int) -> Seq<int>
    decreases ts.len(),
{
    if ts.len() == 0 {
        Seq::empty()
    } else {
        let last = ts.last();
        let earlier = newly_unlocked(ts.drop_last(), score);
        if !last.unlocked && score >= last.threshold {
            earlier.push(ts.len() - 1)
        } else {
            earlier
        }
    }
}

/// The trophies of `ts` after a check at each score of `scores` in turn.
pub open spec fn after_checks(ts: Seq<Trophy>, scores: Seq<int>) -> Seq<Trophy>
    decreases scores.len(),
{
    if scores.len() == 0 {
        ts
    } else {
        all_checked(after_checks(ts, scores.drop_last()), scores.last())
    }
}

/// Checks keep the thresholds and never lock a trophy again; a second check
/// at the same score changes nothing.
pub proof fn lemma_check_monotone(ts: Seq<Trophy>, score: int)
    ensures
        all_checked(ts, score).len() == ts.len(),
        forall|i: int| 0 <= i < ts.len() ==> (#[trigger] all_checked(ts, score)[i]).threshold == ts[i].threshold,
        forall|i: int| 0 <= i < ts.len() && ts[i].unlocked ==> (#[trigger] all_checked(ts, score)[i]).unlocked,
        all_checked(all_checked(ts, score), score) == all_checked(ts, score),
{
    assert(all_checked(all_checked(ts, score), score) =~= all_checked(ts, score));
}

/// Over any run of checks, a trophy is unlocked exactly when it was
/// unlocked at the start or some check came at a score at or above its
/// threshold: once reached, it stays unlocked for every later check.
pub proof fn lemma_unlocked_after_checks(ts: Seq<Trophy>, scores: Seq<int>)
    ensures
        after_checks(ts, scores).len() == ts.len(),
        forall|i: int| 0 <= i < ts.len() ==> (#[trigger] after_checks(ts, scores)[i]).threshold == ts[i].threshold,
        forall|i: int| 0 <= i < ts.len() ==> ((#[trigger] after_checks(ts, scores)[i]).unlocked <==> (ts[i].unlocked
            || exists|j: int| 0 <= j < scores.len() && scores[j] >= ts[i].threshold)),
    decreases scores.len(),
{
    if scores.len() > 0 {
        let earlier = scores.drop_last();
        lemma_unlocked_after_checks(ts, earlier);
        assert forall|i: int| 0 <= i < ts.len() implies ((#[trigger] after_checks(ts, scores)[i]).unlocked
            <==> (ts[i].unlocked || exists|j: int| 0 <= j < scores.len() && scores[j] >= ts[i].threshold)) by {
            let prev = after_checks(ts, earlier);
            assert(after_checks(ts, scores)[i] == checked(prev[i], scores.last()));
            if exists|j: int| 0 <= j < scores.len() && scores[j] >= ts[i].threshold {
                let j = choose|j: int| 0 <= j < scores.len() && scores[j] >= ts[i].threshold;
                if j < earlier.len() {
                    assert(earlier[j] == scores[j]);
                }
            }
            if exists|j: int| 0 <= j < earlier.len() && earlier[j] >= ts[i].threshold {
                let j = choose|j: int| 0 <= j < earlier.len() && earlier[j] >= ts[i].threshold;
                assert(scores[j] == earlier[j]);
            }
        }
    }
}

/// The trophies of a standard run: thresholds 10, 50 and 110, all locked.
pub open spec fn standard_trophy_records() -> Seq<Trophy> {
    seq![
        Trophy { threshold: 10, unlocked: false },
        Trophy { threshold: 50, unlocked: false },
        Trophy { threshold: 110, unlocked: false },
    ]
}

/// The trophies of a standard run.
pub fn standard_trophies() -> (ts: Vec<Trophy>)
    ensures
        ts@ == standard_trophy_records(),
{
    vec![
        Trophy { threshold: 10, unlocked: false },
        Trophy { threshold: 50, unlocked: false },
        Trophy { threshold: 110, unlocked: false },
    ]
}

/// Unlocks each locked trophy whose threshold `score` has reached, and
/// returns the indices of those it unlocked, whose badges change colour.
pub fn update_trophy_colors(trophies: &mut Vec<Trophy>, score: i32) -> (unlocked: Vec<usize>)
    ensures
        final(trophies)@ == all_checked(old(trophies)@, score as int),
        unlocked@.map_values(|i: usize| i as int) == newly_unlocked(old(trophies)@, score as int),
{
    let ghost before = trophies@;
    let mut unlocked: Vec<usize> = Vec::new();
    let mut i: usize = 0;
    while i < trophies.len()
        invariant
            0 <= i <= trophies.len(),
            trophies.len() == before.len(),
            forall|j: int| 0 <= j < i ==> trophies@[j] == checked(before[j], score as int),
            forall|j: int| i <= j < before.len() ==> trophies@[j] == before[j],
            unlocked@.map_values(|k: usize| k as int) == newly_unlocked(before.take(i as int), score as int),
        decreases trophies.len() - i,
    {
        let t = trophies[i];
        assert(before.take(i + 1).drop_last() == before.take(i as int));
        if !t.unlocked && score >= t.threshold {
            trophies.set(i, Trophy { threshold: t.threshold, unlocked: true });
            unlocked.push(i);
        }
        i = i + 1;
    }
    assert(before.take(before.len() as int) == before);
    assert(trophies@ == all_checked(before, score as int));
    unlocked
}

/// What the label shows at `score`: `Some(remaining)` while the threshold is
/// still ahead, `None` (a blank label) once it has been reached.
pub open spec fn countdown_at(threshold: int, score: int) -> Option<int> {
    if threshold - score > 0 {
        Some(threshold - score)
    } else {
        None
    }
}

impl TrophyText {
    /// The countdown this label shows when the score is `score`.
    pub fn countdown(&self, score: i32) -> (r: Option<u32>)
        ensures
            r matches Some(n) ==> countdown_at(self.score as int, score as int) == Some(n as int),
            r is None ==> countdown_at(self.score as int, score as int) is None,
    {
        let n: i64 = self.score as i64 - score as i64;
        if n > 0 {
            Some(n as u32)
        } else {
            None
        }
    }
}

} // verus!
