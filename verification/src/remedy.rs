//! The remediation protocol: stop the offending unit, then start it again.
//!
//! Remediation is a three-step protocol driven from the outside (the caller
//! issues the actual stop and start commands and reports their completion
//! signals back in). The protocol records the timestamp at which the stop
//! command was issued, refuses to enter the start phase when stop failed, and
//! on full success reports the elapsed time between the issuing of stop and
//! the completion of start. Every failure is reported as an outcome value;
//! nothing here panics or propagates an error.

use vstd::prelude::*;

use crate::clock::now_millis;

verus! {

/// The reported result of one remediation attempt.
#[derive(PartialEq, Eq, Structural, Clone, Copy, Debug)]
pub enum RemediationOutcome {
    /// Stop and start both succeeded; `elapsed_ms` is the end-of-start
    /// timestamp minus the start-of-stop timestamp, in milliseconds.
    Completed { elapsed_ms: i128 },
    /// The stop command failed; start was never attempted and no duration is
    /// reported.
    StopFailed,
    /// Stop succeeded but the start command failed; no duration is reported.
    StartFailed,
}

/// Where one remediation attempt currently stands. The caller performs the
/// external command named by the phase and feeds the completion signal back
/// through `on_stop_result` / `on_start_result`.
#[derive(PartialEq, Eq, Structural, Clone, Copy, Debug)]
pub enum RemediationPhase {
    /// The stop command is to be (or has been) issued; `stop_begun_at_ms` is
    /// the timestamp recorded just before issuing it.
    StopIssued { stop_begun_at_ms: i64 },
    /// Stop succeeded and the start command is to be issued.
    StartIssued { stop_begun_at_ms: i64 },
    /// The attempt is over; nothing further may be issued for it.
    Done { outcome: RemediationOutcome },
}

/// The timestamp recorded when the attempt began (zero once the attempt is
/// done, where it no longer matters).
pub open spec fn phase_begun_at(p: RemediationPhase) -> i64 {
    match p {
        RemediationPhase::StopIssued { stop_begun_at_ms } => stop_begun_at_ms,
        RemediationPhase::StartIssued { stop_begun_at_ms } => stop_begun_at_ms,
        RemediationPhase::Done { .. } => 0,
    }
}

/// A fresh attempt: the stop command is about to be issued at `now_ms`.
pub open spec fn spec_begin(now_ms: i64) -> RemediationPhase {
    RemediationPhase::StopIssued { stop_begun_at_ms: now_ms }
}

/// The phase after the stop command completed: on success the start phase is
/// entered, on failure the attempt is over with `StopFailed`.
pub open spec fn spec_after_stop(p: RemediationPhase, stop_ok: bool) -> RemediationPhase {
    if stop_ok {
        RemediationPhase::StartIssued { stop_begun_at_ms: phase_begun_at(p) }
    } else {
        RemediationPhase::Done { outcome: RemediationOutcome::StopFailed }
    }
}

/// The phase after the start command completed at `now_ms`: on success the
/// attempt is over with the measured duration, on failure with `StartFailed`.
pub open spec fn spec_after_start(p: RemediationPhase, start_ok: bool, now_ms: i64) -> RemediationPhase {
    if start_ok {
        RemediationPhase::Done {
            outcome: RemediationOutcome::Completed {
                elapsed_ms: (now_ms - phase_begun_at(p)) as i128,
            },
        }
    } else {
        RemediationPhase::Done { outcome: RemediationOutcome::StartFailed }
    }
}

/// Begin a remediation attempt whose stop command is issued at `now_ms`.
pub fn begin_remediation(now_ms: i64) -> (p: RemediationPhase)
    ensures
        p == spec_begin(now_ms),
{
    RemediationPhase::StopIssued { stop_begun_at_ms: now_ms }
}

/// Begin a remediation attempt at the current wall-clock time.
pub fn begin_remediation_now() -> (p: RemediationPhase)
    ensures
        p is StopIssued,
        (exists|now_ms: i64| p == spec_begin(now_ms)),
{
    let now_ms = now_millis();
    begin_remediation(now_ms)
}

/// Record the completion signal of the stop command. Only on success does the
/// attempt move on to the start phase; a failed stop ends it at once.
pub fn on_stop_result(p: RemediationPhase, stop_ok: bool) -> (q: RemediationPhase)
    requires
        p is StopIssued,
    ensures
        q == spec_after_stop(p, stop_ok),
        stop_ok <==> q is StartIssued,
        !stop_ok ==> q == (RemediationPhase::Done { outcome: RemediationOutcome::StopFailed }),
{
    match p {
        RemediationPhase::StopIssued { stop_begun_at_ms } => {
            if stop_ok {
                RemediationPhase::StartIssued { stop_begun_at_ms }
            } else {
                RemediationPhase::Done { outcome: RemediationOutcome::StopFailed }
            }
        },
        _ => p,
    }
}

/// Record the completion signal of the start command, observed at `now_ms`.
/// On success the reported duration is exactly `now_ms` minus the timestamp
/// at which the stop command was issued.
pub fn on_start_result(p: RemediationPhase, start_ok: bool, now_ms: i64) -> (q: RemediationPhase)
    requires
        p is StartIssued,
    ensures
        q == spec_after_start(p, start_ok, now_ms),
        q is Done,
        !start_ok ==> q == (RemediationPhase::Done { outcome: RemediationOutcome::StartFailed }),
{
    match p {
        RemediationPhase::StartIssued { stop_begun_at_ms } => {
            if start_ok {
                let elapsed_ms: i128 = (now_ms as i128) - (stop_begun_at_ms as i128);
                RemediationPhase::Done {
                    outcome: RemediationOutcome::Completed { elapsed_ms },
                }
            } else {
                RemediationPhase::Done { outcome: RemediationOutcome::StartFailed }
            }
        },
        _ => p,
    }
}

/// Record the completion signal of the start command at the current
/// wall-clock time.
pub fn on_start_result_now(p: RemediationPhase, start_ok: bool) -> (q: RemediationPhase)
    requires
        p is StartIssued,
    ensures
        (exists|now_ms: i64| q == spec_after_start(p, start_ok, now_ms)),
        q is Done,
        !start_ok ==> q == (RemediationPhase::Done { outcome: RemediationOutcome::StartFailed }),
{
    let now_ms = now_millis();
    on_start_result(p, start_ok, now_ms)
}

/// Law: a failed stop ends the protocol at once with `StopFailed`. The start
/// phase is never entered, so no start command is ever issued and no duration
/// is ever reported for the attempt.
pub proof fn lemma_stop_failure_ends_protocol(now_ms: i64)
    ensures
        spec_after_stop(spec_begin(now_ms), false) == (RemediationPhase::Done {
            outcome: RemediationOutcome::StopFailed,
        }),
        !(spec_after_stop(spec_begin(now_ms), false) is StartIssued),
{
}

/// Law: when stop and start both succeed, the reported duration is exactly
/// the end-of-start timestamp minus the start-of-stop timestamp.
pub proof fn lemma_duration_is_timestamp_difference(stop_begun_ms: i64, start_done_ms: i64)
    ensures
        spec_after_start(spec_after_stop(spec_begin(stop_begun_ms), true), true, start_done_ms)
            == (RemediationPhase::Done {
            outcome: RemediationOutcome::Completed {
                elapsed_ms: (start_done_ms - stop_begun_ms) as i128,
            },
        }),
{
}

} // verus!
