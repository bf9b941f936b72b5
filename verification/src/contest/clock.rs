//! The wall clock, by which the time that an agent takes is measured.

use vstd::prelude::*;
use std::time::Instant;

verus! {

/// A moment on the wall clock.
#[verifier::external_type_specification]
#[verifier::external_body]
pub struct ExInstant(Instant);

/// The time limit that is no limit: the longest time that a clock can
/// measure, in nanoseconds.
pub const NO_TIME_LIMIT: u128 = 18_446_744_073_709_551_615_999_999_999;

/// Reads the clock with `Instant::now`. Nothing is known of the moment that
/// it returns.
#[verifier::external_body]
pub(crate) fn now() -> Instant {
    Instant::now()
}

/// Measures with `Instant::elapsed` the nanoseconds that have passed since
/// `start`. Nothing is known of their number.
#[verifier::external_body]
pub(crate) fn elapsed_nanos(start: &Instant) -> u128 {
    start.elapsed().as_nanos()
}

} // verus!
