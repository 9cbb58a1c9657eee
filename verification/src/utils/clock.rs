//! Measuring elapsed wall time.

use std::time::{Duration, Instant};
use vstd::prelude::*;

verus! {

/// `std::time::Instant`, a measurement of a monotonically nondecreasing
/// clock. Nothing is known of what a value holds.
#[verifier::external_type_specification]
#[verifier::external_body]
pub struct ExInstant(Instant);

/// `Instant::now` returns the current instant. Nothing is promised of it.
pub assume_specification[ Instant::now ]() -> (now: Instant)
;

/// `Instant::elapsed` returns the time passed since the instant was taken.
/// Nothing is promised of it.
pub assume_specification[ Instant::elapsed ](start: &Instant) -> (elapsed: Duration)
;

/// `Duration::as_millis` returns the whole milliseconds that the duration
/// holds. Nothing is promised of the number.
pub assume_specification[ Duration::as_millis ](duration: &Duration) -> (millis: u128)
;

/// The whole milliseconds passed since `start`, reduced to 64 bits. The
/// number depends on the clock, so nothing holds of every outcome.
pub(crate) fn elapsed_ms(start: &Instant) -> (millis: u64) {
    let elapsed = start.elapsed();
    let millis: u128 = elapsed.as_millis();
    reduce_millis(millis)
}

/// A count of milliseconds reduced to 64 bits: its remainder modulo 2^64.
pub fn reduce_millis(millis: u128) -> (reduced: u64)
    ensures
        reduced == millis % 0x1_0000_0000_0000_0000,
{
    (millis % 0x1_0000_0000_0000_0000) as u64
}

} // verus!
