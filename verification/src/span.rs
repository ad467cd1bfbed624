//! A span of time with nanosecond resolution, the range of
//! `std::time::Duration`. The library measures every interval with it;
//! the application converts to and from `Duration` at its edges.
use vstd::prelude::*;

verus! {

pub open spec fn nanos_per_sec() -> nat {
    1_000_000_000
}

/// The longest span: `u64::MAX` seconds and 999 999 999 nanoseconds, as for
/// `Duration::MAX`.
pub open spec fn max_nanos() -> nat {
    (u64::MAX as nat) * nanos_per_sec() + 999_999_999
}

/// `max_nanos()` as a machine integer.
pub fn max_nanos_exec() -> (r: u128)
    ensures
        r == max_nanos(),
{
    18_446_744_073_709_551_615_999_999_999
}

/// A non-negative span of time, viewed as its length in nanoseconds.
#[derive(Clone, Copy, Debug, PartialEq, Eq, Structural)]
pub struct Span {
    nanos: u128,
}

impl View for Span {
    type V = nat;

    closed spec fn view(&self) -> nat {
        self.nanos as nat
    }
}

impl Span {
    #[verifier::type_invariant]
    closed spec fn in_range(self) -> bool {
        self.nanos <= max_nanos()
    }

    /// The empty span.
    pub fn zero() -> (r: Span)
        ensures
            r@ == 0,
    {
        Span { nanos: 0 }
    }

    /// `Duration::from_secs`.
    pub fn from_secs(secs: u64) -> (r: Span)
        ensures
            r@ == secs * nanos_per_sec(),
    {
        assert(secs * 1_000_000_000 <= max_nanos()) by (nonlinear_arith)
            requires
                secs <= u64::MAX,
        ;
        Span { nanos: (secs as u128) * 1_000_000_000 }
    }

    /// `Duration::from_millis`.
    pub fn from_millis(millis: u64) -> (r: Span)
        ensures
            r@ == millis * 1_000_000,
    {
        assert(millis * 1_000_000 <= max_nanos()) by (nonlinear_arith)
            requires
                millis <= u64::MAX,
        ;
        Span { nanos: (millis as u128) * 1_000_000 }
    }

    /// `Duration::from_nanos`.
    pub fn from_nanos(nanos: u64) -> (r: Span)
        ensures
            r@ == nanos,
    {
        Span { nanos: nanos as u128 }
    }

    /// The span of `nanos` nanoseconds, `Duration::from_nanos` for the whole
    /// range that `Duration::as_nanos` returns.
    pub fn from_total_nanos(nanos: u128) -> (r: Span)
        requires
            nanos <= max_nanos(),
        ensures
            r@ == nanos,
    {
        Span { nanos }
    }

    /// `Duration::new`: whole seconds plus nanoseconds, the excess
    /// nanoseconds carried into seconds.
    pub fn new(secs: u64, nanos: u32) -> (r: Span)
        requires
            secs + (nanos as nat) / nanos_per_sec() <= u64::MAX,
        ensures
            r@ == secs * nanos_per_sec() + nanos,
    {
        let total = (secs as u128) * 1_000_000_000 + (nanos as u128);
        assert(secs * 1_000_000_000 + nanos <= max_nanos()) by (nonlinear_arith)
            requires
                secs + nanos / 1_000_000_000 <= u64::MAX,
                nanos <= u32::MAX,
        ;
        Span { nanos: total }
    }

    /// `Duration::as_secs`: the whole seconds.
    pub fn as_secs(&self) -> (r: u64)
        ensures
            r == self@ / nanos_per_sec(),
    {
        proof {
            use_type_invariant(self);
            assert(self.nanos / 1_000_000_000 <= u64::MAX) by (nonlinear_arith)
                requires
                    self.nanos <= max_nanos(),
            ;
        }
        (self.nanos / 1_000_000_000) as u64
    }

    /// `Duration::subsec_nanos`.
    pub fn subsec_nanos(&self) -> (r: u32)
        ensures
            r == self@ % nanos_per_sec(),
    {
        (self.nanos % 1_000_000_000) as u32
    }

    /// `Duration::as_nanos`.
    pub fn as_nanos(&self) -> (r: u128)
        ensures
            r == self@,
            r <= max_nanos(),
    {
        proof {
            use_type_invariant(self);
        }
        self.nanos
    }

    /// `Duration::as_millis`.
    pub fn as_millis(&self) -> (r: u128)
        ensures
            r == self@ / 1_000_000,
    {
        self.nanos / 1_000_000
    }

    /// `self <= other`.
    pub fn le(&self, other: &Span) -> (r: bool)
        ensures
            r == (self@ <= other@),
    {
        self.nanos <= other.nanos
    }

    /// `self == other`.
    pub fn same(&self, other: &Span) -> (r: bool)
        ensures
            r == (*self == *other),
            r == (self@ == other@),
    {
        self.nanos == other.nanos
    }

    /// `self < other`.
    pub fn lt(&self, other: &Span) -> (r: bool)
        ensures
            r == (self@ < other@),
    {
        self.nanos < other.nanos
    }

    /// `Duration::saturating_sub`.
    pub fn saturating_sub(&self, other: &Span) -> (r: Span)
        ensures
            r@ == if self@ >= other@ {
                self@ - other@
            } else {
                0
            },
    {
        proof {
            use_type_invariant(self);
        }
        if self.nanos >= other.nanos {
            Span { nanos: self.nanos - other.nanos }
        } else {
            Span { nanos: 0 }
        }
    }

    /// `Duration + Duration`, which panics past `Duration::MAX`.
    pub fn add(&self, other: &Span) -> (r: Span)
        requires
            self@ + other@ <= max_nanos(),
        ensures
            r@ == self@ + other@,
    {
        Span { nanos: self.nanos + other.nanos }
    }

    /// `Duration / 2`.
    pub fn half(&self) -> (r: Span)
        ensures
            r@ == self@ / 2,
    {
        proof {
            use_type_invariant(self);
        }
        Span { nanos: self.nanos / 2 }
    }

    /// `Duration::min`.
    pub fn min(&self, other: &Span) -> (r: Span)
        ensures
            r@ == if self@ <= other@ {
                self@
            } else {
                other@
            },
    {
        if self.nanos <= other.nanos {
            *self
        } else {
            *other
        }
    }
}

} // verus!
