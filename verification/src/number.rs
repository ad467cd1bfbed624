//! Decimal numbers the user types (the interval in minutes) are IEEE-754
//! doubles; the library holds them by their bit pattern and decides on them
//! exactly, while the application does the arithmetic.
use vstd::prelude::*;

verus! {

/// A double-precision value, held by its IEEE-754 bit pattern.
#[derive(Clone, Copy, Debug, PartialEq, Eq, Structural)]
pub struct FloatBits(pub u64);

/// The bit pattern is that of a finite number greater than zero: sign bit
/// clear, exponent not all ones, and not +0.0.
pub open spec fn positive_finite(bits: u64) -> bool {
    0 < bits < 0x7FF0_0000_0000_0000
}

/// The bit pattern of 10.0.
pub open spec fn ten_bits() -> u64 {
    0x4024_0000_0000_0000
}

impl FloatBits {
    /// `x.is_finite() && x > 0.0`.
    pub fn is_positive_finite(&self) -> (r: bool)
        ensures
            r == positive_finite(self.0),
    {
        0 < self.0 && self.0 < 0x7FF0_0000_0000_0000
    }

    /// 10.0, the default interval in minutes.
    pub fn ten() -> (r: FloatBits)
        ensures
            r.0 == ten_bits(),
            positive_finite(r.0),
    {
        FloatBits(0x4024_0000_0000_0000)
    }

    /// Whether two values have the same bit pattern (so NaN equals NaN).
    pub fn same_bits(&self, other: &FloatBits) -> (r: bool)
        ensures
            r == (self.0 == other.0),
    {
        self.0 == other.0
    }
}

} // verus!
