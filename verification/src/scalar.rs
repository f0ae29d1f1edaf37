//! Single-precision numbers as bit patterns, and small vectors of them.

use vstd::prelude::*;

verus! {

/// An IEEE 754 binary32 number, held as its 32 bits.
#[derive(Clone, Copy, Debug, PartialEq, Eq, Structural)]
pub struct Scalar {
    pub bits: u32,
}

impl Scalar {
    /// The bits without the sign.
    pub open spec fn magnitude(self) -> int {
        if self.bits >= 0x8000_0000 {
            self.bits - 0x8000_0000
        } else {
            self.bits as int
        }
    }

    /// No number: the exponent is all ones and the fraction is not zero.
    pub open spec fn is_nan(self) -> bool {
        self.magnitude() > 0x7f80_0000
    }

    /// An integer that orders the numbers as their values are ordered: the
    /// magnitude, negated under a sign. Both zeros have rank 0.
    pub open spec fn rank(self) -> int {
        if self.bits >= 0x8000_0000 {
            -self.magnitude()
        } else {
            self.magnitude()
        }
    }

    /// `self < other` as numbers; false as soon as one of them is no number.
    pub open spec fn below(self, other: Scalar) -> bool {
        !self.is_nan() && !other.is_nan() && self.rank() < other.rank()
    }

    /// `self <= other` as numbers; false as soon as one of them is no number.
    pub open spec fn at_most(self, other: Scalar) -> bool {
        !self.is_nan() && !other.is_nan() && self.rank() <= other.rank()
    }

    /// The smaller of two numbers. One that is no number gives way to the
    /// other; of two that compare equal, `self` stays.
    pub open spec fn min_spec(self, other: Scalar) -> Scalar {
        if self.is_nan() {
            other
        } else if other.below(self) {
            other
        } else {
            self
        }
    }

    /// The larger of two numbers, with the same rules as `min_spec`.
    pub open spec fn max_spec(self, other: Scalar) -> Scalar {
        if self.is_nan() {
            other
        } else if self.below(other) {
            other
        } else {
            self
        }
    }

    /// The number with these bits.
    pub fn from_bits(bits: u32) -> (r: Scalar)
        ensures
            r.bits == bits,
    {
        Scalar { bits }
    }

    /// The bits of the number.
    pub fn to_bits(self) -> (r: u32)
        ensures
            r == self.bits,
    {
        self.bits
    }

    /// Positive zero.
    pub fn zero() -> (r: Scalar)
        ensures
            r.bits == 0,
    {
        Scalar { bits: 0 }
    }

    /// The number one.
    pub fn one() -> (r: Scalar)
        ensures
            r.bits == 0x3f80_0000,
    {
        Scalar { bits: 0x3f80_0000 }
    }

    fn magnitude_bits(self) -> (r: u32)
        ensures
            r == self.magnitude(),
    {
        if self.bits >= 0x8000_0000 {
            self.bits - 0x8000_0000
        } else {
            self.bits
        }
    }

    /// Whether this is no number.
    pub fn nan(self) -> (r: bool)
        ensures
            r == self.is_nan(),
    {
        self.magnitude_bits() > 0x7f80_0000
    }

    /// Whether `self < other` as numbers.
    pub fn lt(self, other: Scalar) -> (r: bool)
        ensures
            r == self.below(other),
    {
        if self.nan() || other.nan() {
            return false;
        }
        let a: u32 = self.magnitude_bits();
        let b: u32 = other.magnitude_bits();
        let a_neg: bool = self.bits >= 0x8000_0000;
        let b_neg: bool = other.bits >= 0x8000_0000;
        if a_neg && b_neg {
            b < a
        } else if a_neg {
            a > 0 || b > 0
        } else if b_neg {
            false
        } else {
            a < b
        }
    }

    /// Whether `self <= other` as numbers.
    pub fn le(self, other: Scalar) -> (r: bool)
        ensures
            r == self.at_most(other),
    {
        if self.nan() || other.nan() {
            return false;
        }
        !other.lt(self)
    }

    /// The smaller of two numbers.
    pub fn min(self, other: Scalar) -> (r: Scalar)
        ensures
            r == self.min_spec(other),
    {
        if self.nan() {
            other
        } else if other.lt(self) {
            other
        } else {
            self
        }
    }

    /// The larger of two numbers.
    pub fn max(self, other: Scalar) -> (r: Scalar)
        ensures
            r == self.max_spec(other),
    {
        if self.nan() {
            other
        } else if self.lt(other) {
            other
        } else {
            self
        }
    }
}

/// Three numbers.
#[derive(Clone, Copy, Debug, PartialEq, Eq, Structural)]
pub struct Vec3(pub Scalar, pub Scalar, pub Scalar);

/// Four numbers.
#[derive(Clone, Copy, Debug, PartialEq, Eq, Structural)]
pub struct Vec4(pub Scalar, pub Scalar, pub Scalar, pub Scalar);

} // verus!
