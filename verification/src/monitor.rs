//! The per-unit monitor: the detection state machine.
//!
//! One monitor watches one unit. Each poll hands it an observation of the
//! unit's live process-identifier resource; the monitor detects every live
//! identifier not yet in its known set, reports each detection exactly once,
//! and folds the detected identifiers into the known set, which only ever
//! grows. An absent resource idles the iteration: no error, no change.

use vstd::prelude::*;

use crate::clock::now_millis;
use crate::parse::parse_proc_list;
use crate::parse::proc_ids_of;
use crate::procset::ProcSet;
use crate::procset::lemma_take_succ_to_set;
use crate::procset::strictly_sorted;

verus! {

/// One reading of a unit's live process-identifier resource: the resource was
/// absent, or present with the given raw bytes.
pub enum Observation {
    Absent,
    Present(Vec<u8>),
}

impl Observation {
    /// The live set the observation carries: `None` when the resource was
    /// absent, otherwise the parsed identifier set.
    pub open spec fn live_ids(&self) -> Option<Set<i32>> {
        match self {
            Observation::Absent => Option::None,
            Observation::Present(content) => Option::Some(proc_ids_of(content@)),
        }
    }
}

/// One detection: a process identifier observed in a unit's live set while
/// not in its known set. Produced at most once per identifier over a
/// monitor's lifetime and consumed immediately; never persisted.
pub struct DetectionEvent {
    /// The container id of the unit the identifier appeared in.
    pub unit_id: String,
    /// The offending process identifier.
    pub pid: i32,
    /// When the detection was made, as milliseconds since the Unix epoch.
    pub timestamp_ms: i64,
}

/// The known set after one poll: unchanged when the resource was absent,
/// otherwise grown by the whole live set.
pub open spec fn step_known(known: Set<i32>, ob: Option<Set<i32>>) -> Set<i32> {
    match ob {
        Option::None => known,
        Option::Some(live) => known.union(live),
    }
}

/// What one poll detects: the live identifiers not yet known; nothing when
/// the resource was absent.
pub open spec fn step_new_ids(known: Set<i32>, ob: Option<Set<i32>>) -> Set<i32> {
    match ob {
        Option::None => Set::empty(),
        Option::Some(live) => live.difference(known),
    }
}

/// What a poll's detection events must look like, apart from their
/// timestamps: exactly one event per newly observed identifier, in ascending
/// numeric order, each naming the monitor's unit.
pub open spec fn events_ok(evs: Seq<DetectionEvent>, unit_id: Seq<char>, news: Set<i32>) -> bool {
    &&& forall|k: int| 0 <= k < evs.len() ==> (#[trigger] evs[k]).unit_id@ == unit_id
    &&& forall|k: int| 0 <= k < evs.len() ==> news.contains((#[trigger] evs[k]).pid)
    &&& forall|v: i32|
        news.contains(v) ==> exists|k: int| 0 <= k < evs.len() && (#[trigger] evs[k]).pid == v
    &&& forall|k1: int, k2: int| 0 <= k1 < k2 < evs.len() ==> evs[k1].pid < evs[k2].pid
}

/// The monitor of one unit: its container id and its known set of legitimate
/// process identifiers. The known set is owned by this monitor alone and only
/// ever grows. The monitor's abstract value is its known set.
pub struct UnitMonitor {
    unit_id: String,
    known: ProcSet,
}

impl View for UnitMonitor {
    type V = Set<i32>;

    closed spec fn view(&self) -> Set<i32> {
        self.known@
    }
}

impl UnitMonitor {
    /// The container id of the unit this monitor watches.
    pub closed spec fn spec_unit_id(&self) -> Seq<char> {
        self.unit_id@
    }

    /// A monitor whose known set starts from the unit's baseline.
    pub fn new(unit_id: String, baseline: ProcSet) -> (m: UnitMonitor)
        ensures
            m@ == baseline@,
            m.spec_unit_id() == unit_id@,
    {
        UnitMonitor { unit_id, known: baseline }
    }

    /// The container id of the unit this monitor watches.
    pub fn unit_id(&self) -> (r: &String)
        ensures
            r@ == self.spec_unit_id(),
    {
        &self.unit_id
    }

    /// Whether the identifier is already held legitimate for this unit.
    pub fn knows(&self, pid: i32) -> (r: bool)
        ensures
            r == self@.contains(pid),
    {
        self.known.contains(pid)
    }

    /// The known identifiers, in ascending numeric order.
    pub fn known_sorted(&self) -> (r: Vec<i32>)
        ensures
            strictly_sorted(r@),
            forall|v: i32| r@.contains(v) <==> self@.contains(v),
    {
        self.known.to_sorted_vec()
    }

    /// One poll of the unit, observed at `now_ms`. Detects every live
    /// identifier not yet known — each exactly once per monitor lifetime, in
    /// ascending numeric order — and folds each detected identifier into the
    /// known set, which never shrinks. An absent resource changes nothing and
    /// detects nothing.
    pub fn observe(&mut self, obs: &Observation, now_ms: i64) -> (evs: Vec<DetectionEvent>)
        ensures
            final(self).spec_unit_id() == old(self).spec_unit_id(),
            final(self)@ == step_known(old(self)@, obs.live_ids()),
            old(self)@.subset_of(final(self)@),
            events_ok(evs@, old(self).spec_unit_id(), step_new_ids(old(self)@, obs.live_ids())),
            forall|k: int| 0 <= k < evs@.len() ==> (#[trigger] evs@[k]).timestamp_ms == now_ms,
            obs is Absent ==> final(self)@ == old(self)@ && evs@.len() == 0,
    {
        match obs {
            Observation::Absent => Vec::new(),
            Observation::Present(content) => {
                let live = parse_proc_list(content);
                let fresh = live.minus_sorted(&self.known);
                let ghost news = step_new_ids(old(self)@, obs.live_ids());
                proof {
                    assert(fresh@.take(0) =~= Seq::<i32>::empty());
                    assert(fresh@.take(0).to_set() =~= Set::<i32>::empty());
                    assert(old(self)@.union(fresh@.take(0).to_set()) =~= old(self)@);
                }
                let mut evs: Vec<DetectionEvent> = Vec::new();
                let mut k: usize = 0;
                while k < fresh.len()
                    invariant
                        k <= fresh@.len(),
                        self.unit_id == old(self).unit_id,
                        strictly_sorted(fresh@),
                        forall|v: i32|
                            fresh@.contains(v) <==> (live@.contains(v) && !old(self)@.contains(v)),
                        self@ == old(self)@.union(fresh@.take(k as int).to_set()),
                        evs@.len() == k,
                        forall|j: int| 0 <= j < k ==> (#[trigger] evs@[j]).pid == fresh@[j],
                        forall|j: int|
                            0 <= j < k ==> (#[trigger] evs@[j]).unit_id@ == old(self).unit_id@,
                        forall|j: int| 0 <= j < k ==> (#[trigger] evs@[j]).timestamp_ms == now_ms,
                    decreases fresh@.len() - k,
                {
                    let ghost known_before = self@;
                    let pid = fresh[k];
                    evs.push(
                        DetectionEvent { unit_id: self.unit_id.clone(), pid, timestamp_ms: now_ms },
                    );
                    self.known.insert(pid);
                    proof {
                        lemma_take_succ_to_set(fresh@, k as int);
                        assert(old(self)@.union(fresh@.take(k as int).to_set()).insert(pid) =~= old(
                            self,
                        )@.union(fresh@.take(k + 1).to_set()));
                    }
                    k = k + 1;
                }
                proof {
                    assert(fresh@.take(fresh@.len() as int) =~= fresh@);
                    assert(live@ == proc_ids_of(content@));
                    // the known set grew by exactly the live set
                    assert(old(self)@.union(fresh@.to_set()) =~= old(self)@.union(live@));
                    // exactly one event per newly observed identifier
                    assert(news =~= live@.difference(old(self)@));
                    assert forall|j: int| 0 <= j < evs@.len() implies news.contains(
                        (#[trigger] evs@[j]).pid,
                    ) by {
                        assert(evs@[j].pid == fresh@[j]);
                        assert(fresh@.contains(fresh@[j]));
                    }
                    assert forall|v: i32| news.contains(v) implies exists|j: int|
                        0 <= j < evs@.len() && (#[trigger] evs@[j]).pid == v by {
                        assert(fresh@.contains(v));
                        let j = choose|j: int| 0 <= j < fresh@.len() && #[trigger] fresh@[j] == v;
                        assert(evs@[j].pid == v);
                    }
                }
                evs
            },
        }
    }

    /// One poll of the unit at the current wall-clock time. All events of the
    /// poll share one timestamp; everything else is as in `observe`.
    pub fn observe_now(&mut self, obs: &Observation) -> (evs: Vec<DetectionEvent>)
        ensures
            final(self).spec_unit_id() == old(self).spec_unit_id(),
            final(self)@ == step_known(old(self)@, obs.live_ids()),
            old(self)@.subset_of(final(self)@),
            events_ok(evs@, old(self).spec_unit_id(), step_new_ids(old(self)@, obs.live_ids())),
            forall|k1: int, k2: int|
                0 <= k1 < evs@.len() && 0 <= k2 < evs@.len() ==> (#[trigger] evs@[k1]).timestamp_ms
                    == (#[trigger] evs@[k2]).timestamp_ms,
            obs is Absent ==> final(self)@ == old(self)@ && evs@.len() == 0,
    {
        let now_ms = now_millis();
        self.observe(obs, now_ms)
    }
}

} // verus!
