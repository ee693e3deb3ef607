//! Points on a monotonic clock and spans between them, in nanoseconds.

use vstd::prelude::*;

verus! {

/// A span of time.
#[derive(Clone, Copy, PartialEq, Eq, Structural, Debug, PartialOrd, Ord, Hash)]
pub struct Duration {
    pub nanos: u128,
}

/// A point on the monotonic clock, counted from an origin the host picks.
#[derive(Clone, Copy, PartialEq, Eq, Structural, Debug, PartialOrd, Ord, Hash)]
pub struct Instant {
    pub nanos: u128,
}

/// How long after `earlier` the point `later` lies; zero when it does not.
pub open spec fn span_between(later: Instant, earlier: Instant) -> nat {
    if later.nanos >= earlier.nanos {
        (later.nanos - earlier.nanos) as nat
    } else {
        0
    }
}

impl Duration {
    pub fn from_secs(secs: u64) -> (d: Duration)
        ensures
            d.nanos == secs * 1_000_000_000,
    {
        assert(secs * 1_000_000_000 <= u128::MAX) by (nonlinear_arith)
            requires
                secs <= u64::MAX,
        ;
        Duration { nanos: secs as u128 * 1_000_000_000 }
    }

    pub fn from_millis(millis: u64) -> (d: Duration)
        ensures
            d.nanos == millis * 1_000_000,
    {
        assert(millis * 1_000_000 <= u128::MAX) by (nonlinear_arith)
            requires
                millis <= u64::MAX,
        ;
        Duration { nanos: millis as u128 * 1_000_000 }
    }
}

impl Instant {
    /// The span since `earlier`, zero when `earlier` is the later one.
    pub fn saturating_duration_since(self, earlier: Instant) -> (d: Duration)
        ensures
            d.nanos == span_between(self, earlier),
    {
        if self.nanos >= earlier.nanos {
            Duration { nanos: self.nanos - earlier.nanos }
        } else {
            Duration { nanos: 0 }
        }
    }

    /// The point `d` later. The clock must not run out.
    pub fn plus(self, d: Duration) -> (t: Instant)
        requires
            self.nanos + d.nanos <= u128::MAX,
        ensures
            t.nanos == self.nanos + d.nanos,
    {
        Instant { nanos: self.nanos + d.nanos }
    }
}

} // verus!
