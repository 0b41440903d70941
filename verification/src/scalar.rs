//! Single-precision numbers as bit patterns.

use vstd::prelude::*;

verus! {

/// The exponent field, in place.
pub const EXPONENT_MASK: u32 = 0x7f80_0000;

/// The fraction field, in place.
pub const FRACTION_MASK: u32 = 0x007f_ffff;

/// The sign bit.
pub const SIGN_MASK: u32 = 0x8000_0000;

/// A single-precision number, held as its IEEE 754 binary32 encoding.
///
/// Two scalars are `==` when their encodings are equal, which is finer than
/// numeric equality: the two zeros differ, and a NaN equals itself.
#[derive(Clone, Copy, Debug, PartialEq, Eq, Structural)]
pub struct Scalar {
    pub bits: u32,
}

impl Scalar {
    /// The biased exponent, from 0 to 255.
    pub open spec fn exponent(self) -> int {
        (self.bits as int / 0x0080_0000) % 0x100
    }

    /// The fraction field, below 2^23.
    pub open spec fn fraction(self) -> int {
        self.bits as int % 0x0080_0000
    }

    /// The sign bit is set.
    pub open spec fn sign(self) -> bool {
        self.bits as int >= 0x8000_0000
    }

    /// Neither an infinity nor a NaN.
    pub open spec fn finite(self) -> bool {
        self.exponent() != 255
    }

    /// Not a number.
    pub open spec fn nan(self) -> bool {
        self.exponent() == 255 && self.fraction() != 0
    }

    /// Positive or negative zero.
    pub open spec fn zero(self) -> bool {
        self.exponent() == 0 && self.fraction() == 0
    }

    /// Compares as greater than or equal to zero: not a NaN, and either a
    /// zero or without the sign bit.
    pub open spec fn at_least_zero(self) -> bool {
        !self.nan() && (self.zero() || !self.sign())
    }

    pub fn from_bits(bits: u32) -> (s: Scalar)
        ensures
            s.bits == bits,
    {
        Scalar { bits }
    }

    pub fn to_bits(&self) -> (bits: u32)
        ensures
            bits == self.bits,
    {
        self.bits
    }

    /// Positive zero.
    pub fn positive_zero() -> (s: Scalar)
        ensures
            s.bits == 0,
            s.zero(),
            s.finite(),
    {
        Scalar { bits: 0 }
    }

    pub fn is_finite(&self) -> (r: bool)
        ensures
            r == self.finite(),
    {
        let b: u32 = self.bits;
        assert((b & 0x7f80_0000 != 0x7f80_0000) == ((b / 0x0080_0000) % 0x100 != 255))
            by (bit_vector);
        b & EXPONENT_MASK != EXPONENT_MASK
    }

    pub fn is_nan(&self) -> (r: bool)
        ensures
            r == self.nan(),
    {
        let b: u32 = self.bits;
        assert((b & 0x7f80_0000 == 0x7f80_0000) == ((b / 0x0080_0000) % 0x100 == 255))
            by (bit_vector);
        assert((b & 0x007f_ffff != 0) == (b % 0x0080_0000 != 0)) by (bit_vector);
        b & EXPONENT_MASK == EXPONENT_MASK && b & FRACTION_MASK != 0
    }

    pub fn is_zero(&self) -> (r: bool)
        ensures
            r == self.zero(),
    {
        let b: u32 = self.bits;
        assert((b & 0x7fff_ffff == 0) == ((b / 0x0080_0000) % 0x100 == 0 && b % 0x0080_0000
            == 0)) by (bit_vector);
        b & 0x7fff_ffff == 0
    }

    pub fn is_sign_negative(&self) -> (r: bool)
        ensures
            r == self.sign(),
    {
        self.bits >= SIGN_MASK
    }

    /// What `>= 0` gives for the number.
    pub fn is_at_least_zero(&self) -> (r: bool)
        ensures
            r == self.at_least_zero(),
    {
        !self.is_nan() && (self.is_zero() || !self.is_sign_negative())
    }
}

} // verus!
