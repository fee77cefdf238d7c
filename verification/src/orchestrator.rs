//! The period loop: a period is bounded by the fuzzers' cumulative exec count,
//! never by wall-clock time, and stops at the harvest boundary for a human to
//! triage.
pub mod period;
pub mod driver;
pub mod loop_runtime;
