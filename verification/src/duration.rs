//! Spans of time.

use vstd::prelude::*;

verus! {

/// Nanoseconds in a second.
pub const NANOS_PER_SEC: u128 = 1_000_000_000;

/// The longest span, in nanoseconds: `u64::MAX` whole seconds and 999,999,999 nanoseconds.
pub const MAX_NANOS: u128 = 18_446_744_073_709_551_615_999_999_999;

/// A span of time with nanosecond resolution, at most [`MAX_NANOS`] long.
#[derive(Clone, Copy, Debug, PartialEq, Eq, PartialOrd, Ord)]
pub struct Duration {
    nanos: u128,
}

impl View for Duration {
    type V = nat;

    /// The length of the span in nanoseconds.
    closed spec fn view(&self) -> nat {
        self.nanos as nat
    }
}

/// `nanos`, or the longest span if `nanos` is longer than that.
pub open spec fn capped(nanos: nat) -> nat {
    if nanos <= MAX_NANOS {
        nanos
    } else {
        MAX_NANOS as nat
    }
}

/// The nanoseconds from `start` to `end`, none if `end` comes first.
pub open spec fn elapsed_between(start: nat, end: nat) -> nat {
    if start <= end {
        (end - start) as nat
    } else {
        0
    }
}

impl Duration {
    #[verifier::type_invariant]
    spec fn bounded(self) -> bool {
        self.nanos <= MAX_NANOS
    }

    /// The empty span.
    pub fn zero() -> (d: Duration)
        ensures
            d@ == 0,
    {
        Duration { nanos: 0 }
    }

    /// A span of `secs` seconds and `nanos` nanoseconds, cut off at the longest one. Nanoseconds
    /// that make up a second or more carry over.
    pub fn new(secs: u64, nanos: u32) -> (d: Duration)
        ensures
            d@ == capped((secs * NANOS_PER_SEC + nanos) as nat),
    {
        Duration::from_nanos(secs as u128 * NANOS_PER_SEC + nanos as u128)
    }

    /// A span of `millis` milliseconds.
    pub fn from_millis(millis: u64) -> (d: Duration)
        ensures
            d@ == millis * 1_000_000,
    {
        Duration { nanos: millis as u128 * 1_000_000 }
    }

    /// A span of `nanos` nanoseconds, cut off at the longest one.
    pub fn from_nanos(nanos: u128) -> (d: Duration)
        ensures
            d@ == capped(nanos as nat),
    {
        if nanos <= MAX_NANOS {
            Duration { nanos }
        } else {
            Duration { nanos: MAX_NANOS }
        }
    }

    /// The length of the span in nanoseconds.
    pub fn as_nanos(&self) -> (nanos: u128)
        ensures
            nanos == self@,
            nanos <= MAX_NANOS,
    {
        proof {
            use_type_invariant(self);
        }
        self.nanos
    }

    /// The length of the span in whole microseconds.
    pub fn as_micros(&self) -> (micros: u128)
        ensures
            micros == self@ / 1000,
    {
        self.nanos / 1000
    }

    /// Whether the span is empty.
    pub fn is_zero(&self) -> (empty: bool)
        ensures
            empty == (self@ == 0),
    {
        self.nanos == 0
    }

    /// The sum of two spans, cut off at the longest one.
    pub fn saturating_add(self, other: Duration) -> (sum: Duration)
        ensures
            sum@ == capped(self@ + other@),
    {
        proof {
            use_type_invariant(&self);
            use_type_invariant(&other);
        }
        Duration::from_nanos(self.nanos + other.nanos)
    }

    /// What is left of this span after taking `other` from it; the empty span if `other` is longer.
    pub fn saturating_sub(self, other: Duration) -> (rest: Duration)
        ensures
            rest@ == elapsed_between(other@, self@),
            rest@ <= MAX_NANOS,
    {
        proof {
            use_type_invariant(&self);
        }
        if other.nanos <= self.nanos {
            Duration { nanos: self.nanos - other.nanos }
        } else {
            Duration { nanos: 0 }
        }
    }
}

} // verus!
