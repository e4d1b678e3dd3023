use cgroup_sentinel::monitor::Observation;
use cgroup_sentinel::monitor::UnitMonitor;
use cgroup_sentinel::procset::ProcSet;
use cgroup_sentinel::remedy::RemediationOutcome;
use cgroup_sentinel::remedy::RemediationPhase;
use cgroup_sentinel::remedy::begin_remediation;
use cgroup_sentinel::remedy::on_start_result;
use cgroup_sentinel::remedy::on_stop_result;

fn monitor_for(unit: &str, baseline: &[i32]) -> UnitMonitor {
    UnitMonitor::new(unit.to_string(), ProcSet::from_ids(&baseline.to_vec()))
}

#[test]
fn new_pid_detected_exactly_once() {
    // baseline {100,101}; live set becomes {100,101,205}
    let mut m = monitor_for("abc", &[100, 101]);
    let obs = Observation::Present(b"100\n101\n205\n".to_vec());
    let evs = m.observe(&obs, 1234);
    assert_eq!(evs.len(), 1);
    assert_eq!(evs[0].unit_id, "abc");
    assert_eq!(evs[0].pid, 205);
    assert_eq!(evs[0].timestamp_ms, 1234);
    assert_eq!(m.known_sorted(), vec![100, 101, 205]);
    // the same snapshot seen again detects nothing further
    let evs2 = m.observe(&obs, 1235);
    assert_eq!(evs2.len(), 0);
    assert_eq!(m.known_sorted(), vec![100, 101, 205]);
}

#[test]
fn no_new_ids_means_no_growth() {
    let mut m = monitor_for("abc", &[100, 101]);
    for t in 0..5 {
        let evs = m.observe(&Observation::Present(b"100\n101\n".to_vec()), t);
        assert_eq!(evs.len(), 0);
    }
    let evs = m.observe(&Observation::Present(b"101\n".to_vec()), 9);
    assert_eq!(evs.len(), 0);
    assert_eq!(m.known_sorted(), vec![100, 101]);
}

#[test]
fn absent_resource_idles_the_iteration() {
    let mut m = monitor_for("abc", &[100, 101]);
    let evs = m.observe(&Observation::Absent, 50);
    assert_eq!(evs.len(), 0);
    assert_eq!(m.known_sorted(), vec![100, 101]);
}

#[test]
fn detections_come_in_ascending_order() {
    let mut m = monitor_for("abc", &[]);
    let evs = m.observe(&Observation::Present(b"300\n7\n42\n".to_vec()), 1);
    let pids: Vec<i32> = evs.iter().map(|e| e.pid).collect();
    assert_eq!(pids, vec![7, 42, 300]);
    assert!(evs.iter().all(|e| e.unit_id == "abc" && e.timestamp_ms == 1));
}

#[test]
fn detected_pid_stays_known_even_after_failed_remediation() {
    // stop succeeds, start fails: the known set still gains the detected id
    let mut m = monitor_for("abc", &[100]);
    let evs = m.observe(&Observation::Present(b"100\n205\n".to_vec()), 10);
    assert_eq!(evs.len(), 1);
    let phase = begin_remediation(10);
    let phase = on_stop_result(phase, true);
    let phase = on_start_result(phase, false, 25);
    assert_eq!(phase, RemediationPhase::Done { outcome: RemediationOutcome::StartFailed });
    assert!(m.knows(205));
    // and the failed remediation never causes a second detection of 205
    let evs2 = m.observe(&Observation::Present(b"100\n205\n".to_vec()), 30);
    assert_eq!(evs2.len(), 0);
}

#[test]
fn two_monitors_are_independent() {
    // two units detect at the same time; neither's state touches the other's
    let mut a = monitor_for("abc", &[100]);
    let mut b = monitor_for("xyz", &[100]);
    let evs_a = a.observe(&Observation::Present(b"100\n205\n".to_vec()), 5);
    let evs_b = b.observe(&Observation::Present(b"100\n300\n".to_vec()), 5);
    assert_eq!(evs_a.len(), 1);
    assert_eq!(evs_b.len(), 1);
    assert_eq!(evs_a[0].unit_id, "abc");
    assert_eq!(evs_b[0].unit_id, "xyz");
    assert!(a.knows(205) && !a.knows(300));
    assert!(b.knows(300) && !b.knows(205));
}

#[test]
fn observe_now_stamps_all_events_alike() {
    let mut m = monitor_for("abc", &[]);
    let evs = m.observe_now(&Observation::Present(b"1\n2\n".to_vec()));
    assert_eq!(evs.len(), 2);
    assert_eq!(evs[0].timestamp_ms, evs[1].timestamp_ms);
    assert_eq!(m.known_sorted(), vec![1, 2]);
}
