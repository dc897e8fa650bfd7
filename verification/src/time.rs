//! Lengths of time as plain integers, and the one place where the clock is
//! read.

use std::time::Instant;
use vstd::prelude::*;

verus! {

#[verifier::external_type_specification]
#[verifier::external_body]
pub struct ExInstant(Instant);

/// Nanoseconds in one second.
pub const NANOS_PER_SEC: u32 = 1_000_000_000;

/// Nanoseconds in one millisecond.
pub const NANOS_PER_MILLI: u32 = 1_000_000;

/// A length of time: whole seconds plus a count of nanoseconds.
///
/// Every pair of field values is a valid span; its length is
/// [`TimeSpan::total_nanos`].
#[derive(Clone, Copy, Debug, PartialEq, Eq)]
pub struct TimeSpan {
    pub secs: u64,
    pub nanos: u32,
}

impl TimeSpan {
    /// The length of the span in nanoseconds.
    pub open spec fn total_nanos(self) -> nat {
        (self.secs * NANOS_PER_SEC + self.nanos) as nat
    }

    /// Whether the nanoseconds stay below one second, as they do in every
    /// span that a clock reports.
    pub open spec fn is_normal(self) -> bool {
        self.nanos < NANOS_PER_SEC
    }

    /// The length of the span in whole milliseconds, rounded down.
    pub open spec fn total_millis(self) -> nat {
        self.total_nanos() / (NANOS_PER_MILLI as nat)
    }

    /// A span of `millis` milliseconds.
    pub fn from_millis(millis: u64) -> (span: TimeSpan)
        ensures
            span.total_nanos() == millis * NANOS_PER_MILLI,
            span.total_millis() == millis,
            span.is_normal(),
    {
        let secs: u64 = millis / 1000;
        let rest: u64 = millis % 1000;
        let nanos: u32 = (rest * 1_000_000) as u32;
        TimeSpan { secs, nanos }
    }

    /// The length of the span in whole milliseconds, rounded down.
    pub fn as_millis(&self) -> (millis: u128)
        ensures
            millis == self.total_millis(),
    {
        let total: u128 = (self.secs as u128) * 1_000_000_000 + (self.nanos as u128);
        total / 1_000_000
    }
}

/// The time that has passed since `start`, as `Instant::elapsed` reports it.
///
/// The clock decides the length, so nothing is claimed about it beyond what
/// the standard library documents of a duration's parts: the nanosecond part
/// is less than one second.
#[verifier::external_body]
pub(crate) fn elapsed_since(start: &Instant) -> (elapsed: TimeSpan)
    ensures
        elapsed.is_normal(),
{
    let passed = start.elapsed();
    TimeSpan { secs: passed.as_secs(), nanos: passed.subsec_nanos() }
}

} // verus!
