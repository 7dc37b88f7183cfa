//! Spans of time and points on a monotonic clock, counted in nanoseconds.
//!
//! `Duration` covers the same range as the standard library's duration
//! (`u64::MAX` seconds plus up to 999 999 999 nanoseconds) and performs the
//! same arithmetic on it; `Instant` is a reading of a monotonic clock taken
//! relative to an origin chosen by whoever reads the clock.
use vstd::prelude::*;

verus! {

/// Nanoseconds per second.
pub const NANOS_PER_SEC: u128 = 1_000_000_000;

/// The longest span a `Duration` can hold, in nanoseconds.
pub open spec fn max_nanos() -> int {
    u64::MAX as int * 1_000_000_000 + 999_999_999
}

/// A span of time with nanosecond precision.
#[derive(Clone, Copy, Debug, PartialEq, Eq)]
pub struct Duration {
    nanos: u128,
}

impl Duration {
    #[verifier::type_invariant]
    spec fn fits(self) -> bool {
        self.nanos <= max_nanos()
    }
}

impl View for Duration {
    type V = nat;

    /// The length of the span in nanoseconds.
    closed spec fn view(&self) -> nat {
        self.nanos as nat
    }
}

impl Default for Duration {
    /// The empty span.
    fn default() -> (d: Self)
        ensures
            d@ == 0,
    {
        Duration { nanos: 0 }
    }
}

impl Duration {
    /// `secs` seconds and `nanos` nanoseconds; nanoseconds past a whole
    /// second carry into the seconds.
    pub fn new(secs: u64, nanos: u32) -> (d: Duration)
        requires
            secs as int * 1_000_000_000 + nanos as int <= max_nanos(),
        ensures
            d@ == secs as int * 1_000_000_000 + nanos as int,
    {
        let total: u128 = secs as u128 * NANOS_PER_SEC + nanos as u128;
        Duration { nanos: total }
    }

    /// A span of `micros` microseconds.
    pub fn from_micros(micros: u64) -> (d: Duration)
        ensures
            d@ == micros as int * 1000,
    {
        proof {
            assert(micros as int * 1000 <= max_nanos());
        }
        Duration { nanos: micros as u128 * 1000 }
    }

    /// The length in nanoseconds.
    pub fn as_nanos(&self) -> (n: u128)
        ensures
            n == self@,
            n <= max_nanos(),
    {
        proof {
            use_type_invariant(self);
        }
        self.nanos
    }

    /// The number of whole microseconds.
    pub fn as_micros(&self) -> (n: u128)
        ensures
            n == self@ / 1000,
    {
        self.nanos / 1000
    }

    /// The number of whole seconds.
    pub fn as_secs(&self) -> (s: u64)
        ensures
            s == self@ / 1_000_000_000,
    {
        proof {
            use_type_invariant(self);
        }
        (self.nanos / NANOS_PER_SEC) as u64
    }

    /// The nanoseconds past the last whole second.
    pub fn subsec_nanos(&self) -> (n: u32)
        ensures
            n == self@ % 1_000_000_000,
    {
        (self.nanos % NANOS_PER_SEC) as u32
    }

    /// Whether `self` is at least as long as `other`.
    pub fn ge(&self, other: &Duration) -> (b: bool)
        ensures
            b == (self@ >= other@),
    {
        self.nanos >= other.nanos
    }

    /// The sum of two spans; the standard library panics where it would
    /// exceed the longest span.
    pub fn add(self, rhs: Duration) -> (d: Duration)
        requires
            self@ + rhs@ <= max_nanos(),
        ensures
            d@ == self@ + rhs@,
    {
        Duration { nanos: self.nanos + rhs.nanos }
    }

    /// The sum of two spans, or `None` where it would exceed the longest span.
    pub fn checked_add(self, rhs: Duration) -> (d: Option<Duration>)
        ensures
            d matches Some(s) ==> s@ == self@ + rhs@,
            d is None <==> self@ + rhs@ > max_nanos(),
    {
        proof {
            use_type_invariant(&self);
            use_type_invariant(&rhs);
        }
        let m: u128 = u64::MAX as u128 * NANOS_PER_SEC + 999_999_999;
        if self.nanos > m - rhs.nanos {
            None
        } else {
            Some(Duration { nanos: self.nanos + rhs.nanos })
        }
    }

    /// The difference of two spans; the standard library panics where
    /// `rhs` is the longer one.
    pub fn sub(self, rhs: Duration) -> (d: Duration)
        requires
            rhs@ <= self@,
        ensures
            d@ == self@ - rhs@,
            d@ <= max_nanos(),
    {
        proof {
            use_type_invariant(&self);
        }
        Duration { nanos: self.nanos - rhs.nanos }
    }

    /// The span repeated `n` times; the standard library panics where it
    /// would exceed the longest span.
    pub fn mul(self, n: u32) -> (d: Duration)
        requires
            self@ * n <= max_nanos(),
        ensures
            d@ == self@ * n,
    {
        proof {
            use_type_invariant(&self);
            assert(self.nanos as int * n as int <= max_nanos());
        }
        Duration { nanos: self.nanos * n as u128 }
    }

    /// The span repeated `n` times, or `None` where it would exceed the
    /// longest span.
    pub fn checked_mul(self, n: u32) -> (d: Option<Duration>)
        ensures
            d matches Some(s) ==> s@ == self@ * n,
            d is None <==> self@ * n > max_nanos(),
    {
        proof {
            use_type_invariant(&self);
            assert(self.nanos as int * n as int <= max_nanos() * u32::MAX) by (nonlinear_arith)
                requires
                    self.nanos <= max_nanos(),
                    n <= u32::MAX,
            ;
            assert(max_nanos() * u32::MAX < u128::MAX);
        }
        let m: u128 = u64::MAX as u128 * NANOS_PER_SEC + 999_999_999;
        let p: u128 = self.nanos * n as u128;
        if p > m {
            None
        } else {
            Some(Duration { nanos: p })
        }
    }

    /// The span divided into `n` equal parts, rounded down to the nanosecond;
    /// the standard library panics where `n` is zero.
    pub fn div(self, n: u32) -> (d: Duration)
        requires
            n != 0,
        ensures
            d@ == self@ / (n as nat),
    {
        proof {
            use_type_invariant(&self);
            assert(self.nanos as int / n as int <= self.nanos as int) by (nonlinear_arith)
                requires
                    n >= 1,
                    self.nanos >= 0,
            ;
        }
        Duration { nanos: self.nanos / n as u128 }
    }

    /// The span divided into `n` equal parts, `n` a 64-bit count, rounded
    /// down to the nanosecond.
    pub fn div_u64(self, n: u64) -> (d: Duration)
        requires
            n != 0,
        ensures
            d@ == self@ / (n as nat),
    {
        proof {
            use_type_invariant(&self);
            assert(self.nanos as int / n as int <= self.nanos as int) by (nonlinear_arith)
                requires
                    n >= 1,
                    self.nanos >= 0,
            ;
        }
        Duration { nanos: self.nanos / n as u128 }
    }
}

/// A reading of a monotonic clock.
#[derive(Clone, Copy, Debug, PartialEq, Eq)]
pub struct Instant {
    since_origin: Duration,
}

impl View for Instant {
    type V = nat;

    /// Nanoseconds elapsed since the clock's origin.
    closed spec fn view(&self) -> nat {
        self.since_origin@
    }
}

impl Instant {
    /// The reading `elapsed` after the clock's origin.
    pub fn from_origin(elapsed: Duration) -> (t: Instant)
        ensures
            t@ == elapsed@,
    {
        Instant { since_origin: elapsed }
    }

    /// The time elapsed from `earlier` to `self`, or zero where `earlier`
    /// is the later reading.
    pub fn duration_since(&self, earlier: &Instant) -> (d: Duration)
        ensures
            d@ == elapsed(earlier@, self@),
            d@ <= max_nanos(),
    {
        if self.since_origin.ge(&earlier.since_origin) {
            self.since_origin.sub(earlier.since_origin)
        } else {
            Duration::default()
        }
    }
}

/// The time from the reading `from` to the reading `to`, in nanoseconds,
/// saturating at zero where `to` is the earlier one.
pub open spec fn elapsed(from: nat, to: nat) -> nat {
    if to >= from {
        (to - from) as nat
    } else {
        0
    }
}

/// The time from `from` to `to`: what must be added to `from` to reach
/// `to`, or nothing when `to` is earlier.
pub proof fn lemma_elapsed(from: nat, to: nat)
    ensures
        from <= to ==> from + elapsed(from, to) == to,
        to < from ==> elapsed(from, to) == 0,
        elapsed(from, from) == 0,
{
}

} // verus!
