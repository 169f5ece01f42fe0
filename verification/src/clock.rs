//! Time: durations and instants from `std::time`.
use vstd::prelude::*;
use std::time::{Duration, Instant};

verus! {

/// The outside type `std::time::Instant`.
#[verifier::external_type_specification]
#[verifier::external_body]
pub struct ExInstant(std::time::Instant);

/// The length of a duration in nanoseconds (`Duration::as_nanos`).
pub uninterp spec fn duration_nanos(d: Duration) -> nat;

/// `Duration::from_secs`: a duration of `secs` whole seconds.
#[verifier::external_body]
pub(crate) fn duration_from_secs(secs: u64) -> (d: Duration)
    ensures
        duration_nanos(d) == secs as nat * 1_000_000_000,
{
    Duration::from_secs(secs)
}

/// `Duration::from_millis`: a duration of `millis` milliseconds.
#[verifier::external_body]
pub(crate) fn duration_from_millis(millis: u64) -> (d: Duration)
    ensures
        duration_nanos(d) == millis as nat * 1_000_000,
{
    Duration::from_millis(millis)
}

/// `Instant::now`: the current instant.
#[verifier::external_body]
pub(crate) fn now() -> (i: Instant) {
    Instant::now()
}

/// Milliseconds elapsed since `start` (`start.elapsed().as_millis() as u64`);
/// it depends on the clock, so nothing is stated of it.
#[verifier::external_body]
pub(crate) fn elapsed_millis(start: &Instant) -> (ms: u64) {
    start.elapsed().as_millis() as u64
}

/// Whether at least `d` has elapsed since `start` (`start.elapsed() >= d`).
/// It depends on the clock; only a zero duration has always elapsed, since
/// `elapsed` never gives less than zero.
#[verifier::external_body]
pub(crate) fn elapsed_at_least(start: &Instant, d: &Duration) -> (b: bool)
    ensures
        duration_nanos(*d) == 0 ==> b,
{
    start.elapsed() >= *d
}

} // verus!
