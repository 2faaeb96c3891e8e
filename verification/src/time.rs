//! Spans of time, held as a count of nanoseconds.
//!
//! The services express windows, delays and timeouts as spans of whole
//! seconds or milliseconds; this type holds them exactly, with the range of
//! `std::time::Duration` (up to `u64::MAX` seconds and 999 999 999 ns).

use vstd::prelude::*;

verus! {

/// Nanoseconds in the longest span `std::time::Duration` can hold.
pub const MAX_NANOS: u128 = 18_446_744_073_709_551_615_999_999_999;

/// A span of time.
#[derive(Debug, Clone, Copy, PartialEq, Eq)]
pub struct Duration {
    nanos: u128,
}

impl Duration {
    #[verifier::type_invariant]
    spec fn in_range(self) -> bool {
        self.nanos <= MAX_NANOS
    }

    /// The length of the span in nanoseconds.
    pub closed spec fn view_nanos(self) -> nat {
        self.nanos as nat
    }

    /// A span of `secs` seconds.
    pub fn from_secs(secs: u64) -> (d: Self)
        ensures
            d.view_nanos() == secs * 1_000_000_000,
    {
        Duration { nanos: (secs as u128) * 1_000_000_000 }
    }

    /// A span of `millis` milliseconds.
    pub fn from_millis(millis: u64) -> (d: Self)
        ensures
            d.view_nanos() == millis * 1_000_000,
    {
        Duration { nanos: (millis as u128) * 1_000_000 }
    }

    /// A span of `nanos` nanoseconds, if it is within range.
    pub fn from_nanos_u128(nanos: u128) -> (d: Option<Self>)
        ensures
            match d {
                Some(x) => nanos <= MAX_NANOS && x.view_nanos() == nanos,
                None => nanos > MAX_NANOS,
            },
    {
        if nanos <= MAX_NANOS {
            Some(Duration { nanos })
        } else {
            None
        }
    }

    /// The empty span.
    pub fn zero() -> (d: Self)
        ensures
            d.view_nanos() == 0,
    {
        Duration { nanos: 0 }
    }

    /// Length in nanoseconds.
    pub fn as_nanos(&self) -> (n: u128)
        ensures
            n == self.view_nanos(),
            n <= MAX_NANOS,
    {
        proof {
            use_type_invariant(self);
        }
        self.nanos
    }

    /// Length in whole milliseconds.
    pub fn as_millis(&self) -> (n: u128)
        ensures
            n == self.view_nanos() / 1_000_000,
    {
        self.nanos / 1_000_000
    }

    /// Length in whole seconds.
    pub fn as_secs(&self) -> (n: u64)
        ensures
            n == self.view_nanos() / 1_000_000_000,
    {
        proof {
            use_type_invariant(self);
        }
        (self.nanos / 1_000_000_000) as u64
    }

    /// Whether `self` is shorter than `other`.
    pub fn is_shorter_than(&self, other: &Self) -> (b: bool)
        ensures
            b == (self.view_nanos() < other.view_nanos()),
    {
        self.nanos < other.nanos
    }

    /// `self - other`, or the empty span when `other` is longer.
    pub fn saturating_sub(&self, other: &Self) -> (d: Self)
        ensures
            d.view_nanos() == if self.view_nanos() >= other.view_nanos() {
                self.view_nanos() - other.view_nanos()
            } else {
                0
            },
    {
        proof {
            use_type_invariant(self);
        }
        if self.nanos >= other.nanos {
            Duration { nanos: self.nanos - other.nanos }
        } else {
            Duration { nanos: 0 }
        }
    }

    /// `self * factor`, or `None` when the product leaves the range.
    pub fn checked_mul(&self, factor: u32) -> (d: Option<Self>)
        ensures
            match d {
                Some(x) => self.view_nanos() * factor <= MAX_NANOS && x.view_nanos()
                    == self.view_nanos() * factor,
                None => self.view_nanos() * factor > MAX_NANOS,
            },
    {
        proof {
            use_type_invariant(self);
        }
        if factor == 0 {
            return Some(Duration { nanos: 0 });
        }
        if self.nanos > MAX_NANOS / (factor as u128) {
            assert(self.nanos * factor > MAX_NANOS) by (nonlinear_arith)
                requires
                    self.nanos > MAX_NANOS / (factor as u128),
                    factor >= 1,
            ;
            None
        } else {
            assert(self.nanos * factor <= MAX_NANOS) by (nonlinear_arith)
                requires
                    self.nanos <= MAX_NANOS / (factor as u128),
                    factor >= 1,
            ;
            Some(Duration { nanos: self.nanos * (factor as u128) })
        }
    }

    /// The shorter of the two spans.
    pub fn min(self, other: Self) -> (d: Self)
        ensures
            d.view_nanos() == if self.view_nanos() <= other.view_nanos() {
                self.view_nanos()
            } else {
                other.view_nanos()
            },
    {
        if self.nanos <= other.nanos {
            self
        } else {
            other
        }
    }
}

} // verus!
