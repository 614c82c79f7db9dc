//! Binary64 numbers held by their bit pattern.
//!
//! Prices, profit and loss and the drawdown limit travel through the library as the 64 bits of
//! an IEEE-754 double. The library never does arithmetic on them; it only orders them, and the
//! order of two doubles is a short statement over their bits.

use vstd::prelude::*;

verus! {

/// The bit that holds the sign of a double.
pub const SIGN_BIT: u64 = 0x8000_0000_0000_0000;

/// The magnitude of positive infinity; every larger magnitude is a NaN.
pub const INFINITY_MAGNITUDE: u64 = 0x7ff0_0000_0000_0000;

/// An IEEE-754 binary64 value, stored as its 64 bits. Equality (`==`) is equality of bits.
#[derive(Clone, Copy, Debug, PartialEq, Eq, Structural)]
pub struct Float64 {
    pub bits: u64,
}

impl Float64 {
    /// The bits without the sign: exponent and fraction read as one integer.
    pub open spec fn magnitude(self) -> int {
        self.bits as int % 0x8000_0000_0000_0000
    }

    /// True when the sign bit is set.
    pub open spec fn sign(self) -> bool {
        self.bits >= 0x8000_0000_0000_0000
    }

    /// True for the values that are not numbers: all exponent bits set and a fraction that is
    /// not zero.
    pub open spec fn nan(self) -> bool {
        self.magnitude() > 0x7ff0_0000_0000_0000
    }

    /// The place of a number on the line of doubles: the magnitude, negated under the sign bit.
    /// Both zeros have rank 0, and of two numbers the smaller has the smaller rank.
    pub open spec fn rank(self) -> int {
        if self.sign() {
            -self.magnitude()
        } else {
            self.magnitude()
        }
    }

    /// `self < other` as IEEE-754 orders doubles: false as soon as one of them is a NaN.
    pub open spec fn less(self, other: Float64) -> bool {
        !self.nan() && !other.nan() && self.rank() < other.rank()
    }

    /// `self <= other` as IEEE-754 orders doubles: false as soon as one of them is a NaN.
    pub open spec fn less_eq(self, other: Float64) -> bool {
        !self.nan() && !other.nan() && self.rank() <= other.rank()
    }

    /// The double with the given bits.
    pub fn from_bits(bits: u64) -> (r: Float64)
        ensures
            r.bits == bits,
    {
        Float64 { bits }
    }

    /// The bits of the double.
    pub fn to_bits(self) -> (r: u64)
        ensures
            r == self.bits,
    {
        self.bits
    }

    fn magnitude_bits(self) -> (r: u64)
        ensures
            r == self.magnitude(),
    {
        if self.bits >= SIGN_BIT {
            self.bits - SIGN_BIT
        } else {
            self.bits
        }
    }

    fn rank_key(self) -> (r: i128)
        ensures
            r == self.rank(),
    {
        let m: i128 = self.magnitude_bits() as i128;
        if self.bits >= SIGN_BIT {
            -m
        } else {
            m
        }
    }

    /// Whether the value is a NaN.
    pub fn is_nan(self) -> (r: bool)
        ensures
            r == self.nan(),
    {
        self.magnitude_bits() > INFINITY_MAGNITUDE
    }

    /// `self < other`.
    pub fn lt(self, other: Float64) -> (r: bool)
        ensures
            r == self.less(other),
    {
        !self.is_nan() && !other.is_nan() && self.rank_key() < other.rank_key()
    }

    /// `self <= other`.
    pub fn le(self, other: Float64) -> (r: bool)
        ensures
            r == self.less_eq(other),
    {
        !self.is_nan() && !other.is_nan() && self.rank_key() <= other.rank_key()
    }

    /// `self > other`.
    pub fn gt(self, other: Float64) -> (r: bool)
        ensures
            r == other.less(self),
    {
        other.lt(self)
    }

    /// `self >= other`.
    pub fn ge(self, other: Float64) -> (r: bool)
        ensures
            r == other.less_eq(self),
    {
        other.le(self)
    }
}

} // verus!
