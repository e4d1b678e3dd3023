//! Laws of the monitor over whole runs.
//!
//! A run is the sequence of live-set observations a monitor's polls saw, each
//! `None` when the resource was absent and `Some` of the parsed live set when
//! it was present. `known_after` folds `step_known` over a run exactly as
//! `UnitMonitor::observe` does poll by poll, so what is proved of these spec
//! functions holds of any sequence of `observe` calls.

use vstd::prelude::*;

use crate::monitor::step_known;
use crate::monitor::step_new_ids;

verus! {

/// The known set after a whole run of polls, starting from the baseline.
pub open spec fn known_after(baseline: Set<i32>, obs: Seq<Option<Set<i32>>>) -> Set<i32>
    decreases obs.len(),
{
    if obs.len() == 0 {
        baseline
    } else {
        step_known(known_after(baseline, obs.drop_last()), obs.last())
    }
}

/// What the poll at position `k` of a run detects.
pub open spec fn new_ids_at(baseline: Set<i32>, obs: Seq<Option<Set<i32>>>, k: int) -> Set<i32>
    recommends
        0 <= k < obs.len(),
{
    step_new_ids(known_after(baseline, obs.take(k)), obs[k])
}

/// Law: after any number of polls in which no new identifier appeared — every
/// present snapshot lay inside the baseline — the known set is exactly the
/// baseline: it never grows spuriously.
pub proof fn lemma_no_spurious_growth(baseline: Set<i32>, obs: Seq<Option<Set<i32>>>)
    requires
        forall|k: int|
            0 <= k < obs.len() ==> ((#[trigger] obs[k]) matches Option::Some(live)
                ==> live.subset_of(baseline)),
    ensures
        known_after(baseline, obs) == baseline,
    decreases obs.len(),
{
    if obs.len() > 0 {
        let front = obs.drop_last();
        assert forall|k: int|
            0 <= k < front.len() implies ((#[trigger] front[k]) matches Option::Some(live)
            ==> live.subset_of(baseline)) by {
            assert(front[k] == obs[k]);
        }
        lemma_no_spurious_growth(baseline, front);
        match obs.last() {
            Option::None => {},
            Option::Some(live) => {
                assert(obs[obs.len() - 1] == obs.last());
                assert(live.subset_of(baseline));
                assert(baseline.union(live) =~= baseline);
            },
        }
    }
}

/// Law: the known set is monotonically non-decreasing under inclusion across
/// the polls of a run; an identifier once added is never removed.
pub proof fn lemma_known_monotone(baseline: Set<i32>, obs: Seq<Option<Set<i32>>>, j: int, k: int)
    requires
        0 <= j <= k <= obs.len(),
    ensures
        known_after(baseline, obs.take(j)).subset_of(known_after(baseline, obs.take(k))),
    decreases k - j,
{
    if j < k {
        lemma_known_monotone(baseline, obs, j, k - 1);
        assert(obs.take(k).drop_last() =~= obs.take(k - 1));
        let prev = known_after(baseline, obs.take(k - 1));
        match obs.take(k).last() {
            Option::None => {},
            Option::Some(live) => {
                assert(prev.subset_of(prev.union(live)));
            },
        }
    }
}

/// Law: a given identifier triggers at most one detection per monitor
/// lifetime: once the poll at position `j` detects it, no later poll detects
/// it again, however many snapshots still show it.
pub proof fn lemma_detect_at_most_once(
    baseline: Set<i32>,
    obs: Seq<Option<Set<i32>>>,
    j: int,
    k: int,
    v: i32,
)
    requires
        0 <= j < k < obs.len(),
        new_ids_at(baseline, obs, j).contains(v),
    ensures
        !new_ids_at(baseline, obs, k).contains(v),
{
    // the identifier joins the known set right after poll j ...
    assert(obs.take(j + 1).drop_last() =~= obs.take(j));
    assert(obs.take(j + 1).last() == obs[j]);
    let known_j = known_after(baseline, obs.take(j));
    match obs[j] {
        Option::None => {
            assert(false);
        },
        Option::Some(live) => {
            assert(live.contains(v));
            assert(known_after(baseline, obs.take(j + 1)) == known_j.union(live));
        },
    }
    // ... and stays there up to poll k, which therefore cannot detect it
    lemma_known_monotone(baseline, obs, j + 1, k);
    assert(known_after(baseline, obs.take(k)).contains(v));
}

/// Law: when the live-process resource is absent for an iteration, that
/// iteration detects nothing and leaves the known set unchanged.
pub proof fn lemma_absent_iteration_unchanged(
    baseline: Set<i32>,
    obs: Seq<Option<Set<i32>>>,
    k: int,
)
    requires
        0 <= k < obs.len(),
        obs[k] is None,
    ensures
        known_after(baseline, obs.take(k + 1)) == known_after(baseline, obs.take(k)),
        new_ids_at(baseline, obs, k) == Set::<i32>::empty(),
{
    assert(obs.take(k + 1).drop_last() =~= obs.take(k));
    assert(obs.take(k + 1).last() == obs[k]);
}

} // verus!
