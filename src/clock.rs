//! The single time reference of a run.
//!
//! Wall-clock time only stamps outgoing packets; elapsed times are measured
//! against a monotonic `Instant` captured when the run begins.

use vstd::prelude::*;

verus! {

/// `std::time::Instant`, a reading of the monotonic clock, carried opaquely.
#[verifier::external_type_specification]
#[verifier::external_body]
pub struct ExInstant(std::time::Instant);

/// Relies on `std::time::SystemTime::now`: the wall clock, in milliseconds
/// since the Unix epoch (0 if the clock reads earlier than the epoch).
/// Nothing is promised of the value: it depends on the machine's clock.
#[verifier::external_body]
pub(crate) fn unix_millis_now() -> (r: u64) {
    match std::time::SystemTime::now().duration_since(std::time::UNIX_EPOCH) {
        Ok(d) => d.as_millis() as u64,
        Err(_) => 0,
    }
}

/// Relies on `std::time::Instant::elapsed` (then `Duration::as_millis`): the
/// whole milliseconds that passed since `start`. Nothing is promised of the
/// value: it depends on the clock.
#[verifier::external_body]
pub(crate) fn elapsed_millis(start: &std::time::Instant) -> (r: u128) {
    start.elapsed().as_millis()
}

/// Relies on `std::time::Instant::now`: a reading of the monotonic clock.
#[verifier::external_body]
pub(crate) fn instant_now() -> (r: std::time::Instant) {
    std::time::Instant::now()
}

/// The length of a `Duration` in nanoseconds, as `Duration::as_nanos` gives it.
pub uninterp spec fn duration_nanos(d: std::time::Duration) -> int;

/// Relies on `std::time::Duration::from_nanos`: a duration of `n` nanoseconds.
#[verifier::external_body]
pub(crate) fn duration_from_nanos(n: u64) -> (r: std::time::Duration)
    ensures
        duration_nanos(r) == n,
{
    std::time::Duration::from_nanos(n)
}

/// Relies on `std::time::Duration::from_secs`: a duration of `secs` seconds.
#[verifier::external_body]
pub(crate) fn duration_from_secs(secs: u64) -> (r: std::time::Duration)
    ensures
        duration_nanos(r) == secs * 1_000_000_000,
{
    std::time::Duration::from_secs(secs)
}

} // verus!
