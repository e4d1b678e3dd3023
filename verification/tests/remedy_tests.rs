use cgroup_sentinel::remedy::RemediationOutcome;
use cgroup_sentinel::remedy::RemediationPhase;
use cgroup_sentinel::remedy::begin_remediation;
use cgroup_sentinel::remedy::begin_remediation_now;
use cgroup_sentinel::remedy::on_start_result;
use cgroup_sentinel::remedy::on_stop_result;

#[test]
fn duration_is_end_of_start_minus_start_of_stop() {
    let phase = begin_remediation(1000);
    assert_eq!(phase, RemediationPhase::StopIssued { stop_begun_at_ms: 1000 });
    let phase = on_stop_result(phase, true);
    assert_eq!(phase, RemediationPhase::StartIssued { stop_begun_at_ms: 1000 });
    let phase = on_start_result(phase, true, 1500);
    assert_eq!(
        phase,
        RemediationPhase::Done { outcome: RemediationOutcome::Completed { elapsed_ms: 500 } }
    );
}

#[test]
fn failed_stop_ends_the_attempt_without_start() {
    let phase = begin_remediation(1000);
    let phase = on_stop_result(phase, false);
    // no start phase is ever entered: nothing to issue a start from
    assert_eq!(phase, RemediationPhase::Done { outcome: RemediationOutcome::StopFailed });
}

#[test]
fn stop_succeeded_start_failed_is_its_own_outcome() {
    let phase = begin_remediation(2000);
    let phase = on_stop_result(phase, true);
    let phase = on_start_result(phase, false, 2600);
    // no duration is reported on this path
    assert_eq!(phase, RemediationPhase::Done { outcome: RemediationOutcome::StartFailed });
}

#[test]
fn clock_may_run_backwards_without_harm() {
    let phase = begin_remediation(5000);
    let phase = on_stop_result(phase, true);
    let phase = on_start_result(phase, true, 4000);
    assert_eq!(
        phase,
        RemediationPhase::Done { outcome: RemediationOutcome::Completed { elapsed_ms: -1000 } }
    );
}

#[test]
fn begin_remediation_now_enters_the_stop_phase() {
    let phase = begin_remediation_now();
    assert!(matches!(phase, RemediationPhase::StopIssued { .. }));
}
