//! Points in time and lengths of time, both counted in nanoseconds.
use vstd::prelude::*;

verus! {

pub const NANOS_PER_SEC: u128 = 1_000_000_000;

pub const NANOS_PER_MILLI: u128 = 1_000_000;

/// The longest duration: `u64::MAX` seconds and 999 999 999 nanoseconds.
pub const MAX_NANOS: u128 = 18_446_744_073_709_551_615_999_999_999;

/// A length of time, at most `MAX_NANOS` nanoseconds. Its view is the number
/// of nanoseconds.
#[derive(Debug, Clone, Copy, PartialEq, Eq, Structural)]
pub struct Duration {
    nanos: u128,
}

impl View for Duration {
    type V = nat;

    closed spec fn view(&self) -> nat {
        self.nanos as nat
    }
}

impl Duration {
    #[verifier::type_invariant]
    spec fn in_range(self) -> bool {
        self.nanos <= MAX_NANOS
    }

    /// The duration of no length.
    pub fn zero() -> (d: Duration)
        ensures
            d@ == 0,
    {
        Duration { nanos: 0 }
    }

    /// `secs` seconds and `nanos` nanoseconds; nanoseconds beyond a second
    /// carry over into the seconds.
    pub fn new(secs: u64, nanos: u32) -> (d: Duration)
        requires
            secs * NANOS_PER_SEC + nanos <= MAX_NANOS,
        ensures
            d@ == secs * NANOS_PER_SEC + nanos,
    {
        Duration { nanos: secs as u128 * NANOS_PER_SEC + nanos as u128 }
    }

    pub fn from_secs(secs: u64) -> (d: Duration)
        ensures
            d@ == secs * NANOS_PER_SEC,
    {
        Duration { nanos: secs as u128 * NANOS_PER_SEC }
    }

    pub fn from_millis(millis: u64) -> (d: Duration)
        ensures
            d@ == millis * NANOS_PER_MILLI,
    {
        Duration { nanos: millis as u128 * NANOS_PER_MILLI }
    }

    pub fn as_nanos(self) -> (n: u128)
        ensures
            n == self@,
            n <= MAX_NANOS,
    {
        proof {
            use_type_invariant(self);
        }
        self.nanos
    }

    /// Whether this duration is `other` or longer.
    pub fn at_least(self, other: Duration) -> (r: bool)
        ensures
            r == (self@ >= other@),
    {
        self.nanos >= other.nanos
    }

    /// The shorter of two durations.
    pub fn min(self, other: Duration) -> (d: Duration)
        ensures
            d@ == if self@ <= other@ { self@ } else { other@ },
            self@ <= MAX_NANOS,
            other@ <= MAX_NANOS,
    {
        proof {
            use_type_invariant(self);
            use_type_invariant(other);
        }
        if self.nanos <= other.nanos {
            self
        } else {
            other
        }
    }

    /// The sum, or the longest duration where the sum is beyond it.
    pub fn saturating_add(self, other: Duration) -> (d: Duration)
        ensures
            d@ == if self@ + other@ <= MAX_NANOS { self@ + other@ } else { MAX_NANOS as nat },
    {
        proof {
            use_type_invariant(self);
            use_type_invariant(other);
        }
        let sum: u128 = self.nanos + other.nanos;
        if sum <= MAX_NANOS {
            Duration { nanos: sum }
        } else {
            Duration { nanos: MAX_NANOS }
        }
    }

    /// `n` times this duration, where that is a duration.
    pub fn times(self, n: u32) -> (d: Duration)
        requires
            self@ * n <= MAX_NANOS,
        ensures
            d@ == self@ * n,
    {
        proof {
            use_type_invariant(self);
            assert(self.nanos * n <= MAX_NANOS * 0xffff_ffff) by (nonlinear_arith)
                requires
                    self.nanos <= MAX_NANOS,
                    n <= 0xffff_ffff,
            ;
        }
        Duration { nanos: self.nanos * n as u128 }
    }

    /// The `n`-th part of this duration, rounded down to a nanosecond.
    pub fn part(self, n: u32) -> (d: Duration)
        requires
            n != 0,
        ensures
            d@ == self@ / (n as nat),
    {
        proof {
            use_type_invariant(self);
            assert(self.nanos / n as u128 <= self.nanos) by (nonlinear_arith)
                requires
                    n != 0,
            ;
        }
        Duration { nanos: self.nanos / n as u128 }
    }
}

/// A reading of a clock: how long after the clock's origin it was taken. Its
/// view is that number of nanoseconds.
#[derive(Debug, Clone, Copy, PartialEq, Eq, Structural)]
pub struct Instant {
    since_origin: Duration,
}

impl View for Instant {
    type V = nat;

    closed spec fn view(&self) -> nat {
        self.since_origin@
    }
}

impl Instant {
    /// The instant `elapsed` after the clock's origin.
    pub fn after_origin(elapsed: Duration) -> (t: Instant)
        ensures
            t@ == elapsed@,
    {
        Instant { since_origin: elapsed }
    }

    /// The moment `wait` later, in nanoseconds after the origin, also where the
    /// clock cannot show it.
    pub fn nanos_after(self, wait: Duration) -> (n: u128)
        ensures
            n == self@ + wait@,
    {
        proof {
            use_type_invariant(self.since_origin);
            use_type_invariant(wait);
        }
        self.since_origin.nanos + wait.nanos
    }

    /// The instant `d` later, where the clock can show it.
    pub fn checked_add(self, d: Duration) -> (t: Option<Instant>)
        ensures
            t is Some <==> self@ + d@ <= MAX_NANOS,
            t matches Some(later) ==> later@ == self@ + d@,
    {
        proof {
            use_type_invariant(self.since_origin);
            use_type_invariant(d);
        }
        let sum: u128 = self.since_origin.nanos + d.nanos;
        if sum <= MAX_NANOS {
            Some(Instant { since_origin: Duration { nanos: sum } })
        } else {
            None
        }
    }

    /// The time from `earlier` to this instant, or none at all where `earlier`
    /// is the later of the two.
    pub fn saturating_duration_since(self, earlier: Instant) -> (d: Duration)
        ensures
            d@ == if self@ >= earlier@ { (self@ - earlier@) as nat } else { 0 },
    {
        proof {
            use_type_invariant(self.since_origin);
        }
        if self.since_origin.nanos >= earlier.since_origin.nanos {
            Duration { nanos: self.since_origin.nanos - earlier.since_origin.nanos }
        } else {
            Duration { nanos: 0 }
        }
    }

    /// Whether `wait` has passed since `start`: whether this instant is
    /// `start` plus `wait` or later.
    pub fn reached(self, start: Instant, wait: Duration) -> (r: bool)
        ensures
            r == (self@ >= start@ + wait@),
    {
        self.since_origin.nanos >= start.since_origin.nanos && self.since_origin.nanos
            - start.since_origin.nanos >= wait.nanos
    }
}

} // verus!
