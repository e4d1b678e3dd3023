//! A container-isolation sentinel library.
//!
//! The library watches the set of operating-system processes inside each
//! monitored unit (a container's cgroup) and enforces the policy that no
//! process outside an initially observed baseline may persist there. It
//! provides the verified core of the sentinel: parsing the live
//! process-identifier list, filtering unit names, building per-unit
//! baselines, the per-unit detection state machine with its monotonically
//! growing known set, and the stop-then-start remediation protocol with its
//! measured duration. All I/O (listing the cgroup hierarchy, reading the
//! process lists, issuing container stop/start commands) lives outside this
//! library and hands in plain values.

pub mod baseline;
mod clock;
pub mod laws;
pub mod monitor;
pub mod parse;
pub mod procset;
pub mod remedy;
pub mod units;
