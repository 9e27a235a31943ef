//! Lengths of time.

use vstd::prelude::*;

verus! {

/// Nanoseconds in one millisecond.
pub const NANOS_PER_MILLI: u128 = 1_000_000;

/// A length of time, in nanoseconds.
#[derive(Debug, Clone, Copy, PartialEq, Eq, Structural)]
pub struct Delay {
    pub nanos: u128,
}

impl Delay {
    /// The delay of `millis` milliseconds.
    pub open spec fn of_millis(millis: int) -> Delay {
        Delay { nanos: (millis * NANOS_PER_MILLI) as u128 }
    }

    /// The delay of `millis` milliseconds.
    pub fn from_millis(millis: u64) -> (delay: Delay)
        ensures
            delay.nanos == millis * NANOS_PER_MILLI,
            delay == Delay::of_millis(millis as int),
    {
        Delay { nanos: millis as u128 * NANOS_PER_MILLI }
    }

    /// Whether the delay is no delay at all.
    pub fn is_zero(&self) -> (zero: bool)
        ensures
            zero == (self.nanos == 0),
    {
        self.nanos == 0
    }
}

} // verus!
