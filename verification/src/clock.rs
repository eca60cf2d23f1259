//! The monotonic clock by which a trial is timed.

use std::time::Duration;
use std::time::Instant;
use vstd::prelude::*;

verus! {

/// `std::time::Instant`: a reading of the monotonic clock, carried as it is.
#[verifier::external_type_specification]
#[verifier::external_body]
pub struct ExInstant(std::time::Instant);

/// `std::time::Instant::now`: the present reading of the monotonic clock.
/// Nothing is claimed of it.
#[verifier::external_body]
pub(crate) fn clock_now() -> (now: Instant) {
    Instant::now()
}

/// `std::time::Instant::elapsed`: the time that has passed since `start`
/// was read. Nothing is claimed of it.
#[verifier::external_body]
pub(crate) fn elapsed_since(start: &Instant) -> (elapsed: Duration) {
    start.elapsed()
}

/// `std::time::Duration::as_nanos`: the span in whole nanoseconds. A
/// `Duration` is opaque here, so nothing is claimed of the number.
#[verifier::external_body]
pub(crate) fn whole_nanos(elapsed: &Duration) -> (nanos: u128) {
    elapsed.as_nanos()
}

} // verus!
