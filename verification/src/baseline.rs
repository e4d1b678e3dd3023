//! Building the per-unit baselines at startup.
//!
//! For each discovered unit the caller attempts one read of its live
//! process-identifier resource and hands in the outcome. A unit whose
//! resource could not be read yields no baseline entry and is excluded from
//! monitoring — a best-effort-at-startup policy, not an error. Malformed
//! lines of a readable resource are dropped; well-formed lines are kept.

use vstd::prelude::*;

use crate::parse::parse_proc_list;
use crate::parse::proc_ids_of;
use crate::procset::ProcSet;

verus! {

/// The outcome of one startup read of a unit's live process-identifier
/// resource: the unit's name, and the raw bytes read, or `None` when the
/// resource was absent or unreadable.
pub struct UnitReading {
    pub unit_name: String,
    pub content: Option<Vec<u8>>,
}

/// One unit admitted to monitoring: its name and its initial known set.
pub struct UnitBaseline {
    pub unit_name: String,
    pub baseline: ProcSet,
}

/// The (name, identifier-set) pairs that baseline building yields: one per
/// reading whose resource was readable, in input order, with the resource's
/// well-formed lines parsed into the set.
pub open spec fn spec_baselines(rs: Seq<UnitReading>) -> Seq<(Seq<char>, Set<i32>)>
    decreases rs.len(),
{
    if rs.len() == 0 {
        Seq::empty()
    } else {
        let rest = spec_baselines(rs.drop_last());
        match rs.last().content {
            Option::Some(c) => rest.push((rs.last().unit_name@, proc_ids_of(c@))),
            Option::None => rest,
        }
    }
}

/// The abstract value of a built baseline list.
pub open spec fn baselines_view(out: Seq<UnitBaseline>) -> Seq<(Seq<char>, Set<i32>)> {
    out.map_values(|b: UnitBaseline| (b.unit_name@, b.baseline@))
}

/// Build the initial known set of every readable unit. A unit whose resource
/// was unreadable produces no entry at all: it is excluded from monitoring.
pub fn build_baselines(readings: &Vec<UnitReading>) -> (out: Vec<UnitBaseline>)
    ensures
        baselines_view(out@) == spec_baselines(readings@),
{
    let mut out: Vec<UnitBaseline> = Vec::new();
    let mut i: usize = 0;
    proof {
        assert(readings@.take(0) =~= Seq::<UnitReading>::empty());
        assert(baselines_view(out@) =~= spec_baselines(readings@.take(0)));
    }
    while i < readings.len()
        invariant
            i <= readings.len(),
            baselines_view(out@) == spec_baselines(readings@.take(i as int)),
        decreases readings.len() - i,
    {
        let ghost prev = baselines_view(out@);
        proof {
            assert(readings@.take(i + 1).drop_last() =~= readings@.take(i as int));
            assert(readings@.take(i + 1).last() == readings@[i as int]);
        }
        let reading = &readings[i];
        match &reading.content {
            Option::Some(content) => {
                let baseline = parse_proc_list(content);
                out.push(UnitBaseline { unit_name: reading.unit_name.clone(), baseline });
                proof {
                    assert(baselines_view(out@) =~= prev.push(
                        (readings@[i as int].unit_name@, proc_ids_of(
                            readings@[i as int].content->Some_0@,
                        )),
                    ));
                }
            },
            Option::None => {
                // unreadable at startup: excluded from monitoring
            },
        }
        i = i + 1;
    }
    proof {
        assert(readings@.take(readings@.len() as int) =~= readings@);
    }
    out
}

} // verus!
