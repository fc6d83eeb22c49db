//! A monotonic clock model measured in nanoseconds.
//!
//! `Duration` is a span of time and `Instant` a point on a monotonic clock
//! whose origin the caller chooses. Both count nanoseconds in a `u128`, so
//! every operation the library performs on them has an exact arithmetic
//! meaning.

use vstd::prelude::*;

verus! {

/// Nanoseconds in one millisecond.
pub const NANOS_PER_MILLI: u128 = 1_000_000;

/// Nanoseconds in one second.
pub const NANOS_PER_SEC: u128 = 1_000_000_000;

/// A span of time.
#[derive(Clone, Copy, Debug, PartialEq, Eq, Structural)]
pub struct Duration {
    nanos: u128,
}

/// A point on a monotonic clock.
#[derive(Clone, Copy, Debug, PartialEq, Eq, Structural)]
pub struct Instant {
    nanos: u128,
}

impl View for Duration {
    type V = nat;

    closed spec fn view(&self) -> nat {
        self.nanos as nat
    }
}

impl View for Instant {
    type V = nat;

    closed spec fn view(&self) -> nat {
        self.nanos as nat
    }
}

impl Duration {
    /// The empty span.
    pub fn zero() -> (d: Duration)
        ensures
            d@ == 0,
    {
        Duration { nanos: 0 }
    }

    /// A span of `nanos` nanoseconds.
    pub fn from_nanos(nanos: u128) -> (d: Duration)
        ensures
            d@ == nanos,
    {
        Duration { nanos }
    }

    /// A span of `millis` milliseconds.
    pub fn from_millis(millis: u64) -> (d: Duration)
        ensures
            d@ == millis * NANOS_PER_MILLI,
    {
        assert(millis * NANOS_PER_MILLI <= u64::MAX * NANOS_PER_MILLI) by (nonlinear_arith);
        Duration { nanos: millis as u128 * NANOS_PER_MILLI }
    }

    /// A span of `secs` seconds.
    pub fn from_secs(secs: u64) -> (d: Duration)
        ensures
            d@ == secs * NANOS_PER_SEC,
    {
        assert(secs * NANOS_PER_SEC <= u64::MAX * NANOS_PER_SEC) by (nonlinear_arith);
        Duration { nanos: secs as u128 * NANOS_PER_SEC }
    }

    /// The span in nanoseconds.
    pub fn as_nanos(&self) -> (n: u128)
        ensures
            n == self@,
    {
        self.nanos
    }

    /// The span in whole milliseconds, rounded down.
    pub fn as_millis(&self) -> (n: u128)
        ensures
            n == self@ / (NANOS_PER_MILLI as nat),
    {
        self.nanos / NANOS_PER_MILLI
    }

    /// Whether the span is empty.
    pub fn is_zero(&self) -> (b: bool)
        ensures
            b == (self@ == 0),
    {
        self.nanos == 0
    }

    /// Whether this span is strictly shorter than `other`.
    pub fn is_shorter_than(&self, other: &Duration) -> (b: bool)
        ensures
            b == (self@ < other@),
    {
        self.nanos < other.nanos
    }

    /// The sum of two spans, saturating at the largest representable span.
    pub fn saturating_add(&self, other: Duration) -> (d: Duration)
        ensures
            d@ == saturating_sum(self@, other@),
    {
        Duration { nanos: self.nanos.saturating_add(other.nanos) }
    }

    /// The span multiplied by `factor`, saturating at the largest representable span.
    pub fn saturating_mul(&self, factor: u32) -> (d: Duration)
        ensures
            d@ == saturating_product(self@, factor as nat),
    {
        let product = self.nanos.checked_mul(factor as u128);
        match product {
            Some(p) => Duration { nanos: p },
            None => Duration { nanos: u128::MAX },
        }
    }

    /// The shorter of two spans.
    pub fn min(&self, other: Duration) -> (d: Duration)
        ensures
            d@ == if self@ <= other@ { self@ } else { other@ },
    {
        if self.nanos <= other.nanos {
            *self
        } else {
            other
        }
    }
}

/// `a + b`, capped at the largest `u128`.
pub open spec fn saturating_sum(a: nat, b: nat) -> nat {
    if a + b <= u128::MAX {
        a + b
    } else {
        u128::MAX as nat
    }
}

/// `a * b`, capped at the largest `u128`.
pub open spec fn saturating_product(a: nat, b: nat) -> nat {
    if a * b <= u128::MAX {
        a * b
    } else {
        u128::MAX as nat
    }
}

impl Instant {
    /// The instant `nanos` nanoseconds after the clock's origin.
    pub fn from_nanos(nanos: u128) -> (t: Instant)
        ensures
            t@ == nanos,
    {
        Instant { nanos }
    }

    /// Nanoseconds since the clock's origin.
    pub fn as_nanos(&self) -> (n: u128)
        ensures
            n == self@,
    {
        self.nanos
    }

    /// The instant `d` after this one, if it is representable.
    pub fn checked_add(&self, d: Duration) -> (t: Option<Instant>)
        ensures
            t matches Some(t) ==> t@ == self@ + d@,
            t is None <==> self@ + d@ > u128::MAX,
    {
        match self.nanos.checked_add(d.nanos) {
            Some(nanos) => Some(Instant { nanos }),
            None => None,
        }
    }

    /// The instant `d` after this one, saturating at the last representable instant.
    pub fn saturating_add(&self, d: Duration) -> (t: Instant)
        ensures
            t@ == saturating_sum(self@, d@),
    {
        Instant { nanos: self.nanos.saturating_add(d.nanos) }
    }

    /// The time elapsed from `earlier` to this instant, or zero if `earlier` is later.
    pub fn saturating_duration_since(&self, earlier: Instant) -> (d: Duration)
        ensures
            d@ == if self@ >= earlier@ { self@ - earlier@ } else { 0 },
    {
        Duration { nanos: self.nanos.saturating_sub(earlier.nanos) }
    }

    /// Whether this instant comes strictly after `other`.
    pub fn is_after(&self, other: &Instant) -> (b: bool)
        ensures
            b == (self@ > other@),
    {
        self.nanos > other.nanos
    }

    /// Whether this instant is at or after `other`.
    pub fn is_at_or_after(&self, other: &Instant) -> (b: bool)
        ensures
            b == (self@ >= other@),
    {
        self.nanos >= other.nanos
    }
}

} // verus!
