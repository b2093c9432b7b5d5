//! Real-valued samples held by their IEEE-754 binary32 bit pattern.

use vstd::prelude::*;

verus! {

/// A binary32 value, stored as its bit pattern.
///
/// `==` on `Scalar` compares bit patterns; the methods [`Scalar::lt`],
/// [`Scalar::le`], [`Scalar::gt`] and [`Scalar::ge`] compare the numbers the
/// patterns stand for, as IEEE-754 does.
#[derive(Clone, Copy, Debug, PartialEq, Eq, Structural)]
pub struct Scalar {
    pub bits: u32,
}

/// Bit pattern of the sign bit alone (negative zero).
pub const SIGN_BIT: u32 = 0x8000_0000;

/// Bit pattern of positive infinity; every larger magnitude is a NaN.
pub const INFINITY_BITS: u32 = 0x7F80_0000;

impl Scalar {
    /// The pattern with the sign bit cleared.
    pub open spec fn magnitude(self) -> int {
        if self.bits < SIGN_BIT {
            self.bits as int
        } else {
            self.bits - SIGN_BIT
        }
    }

    /// Whether the pattern encodes a NaN.
    pub open spec fn is_nan(self) -> bool {
        self.magnitude() > INFINITY_BITS
    }

    /// An integer that orders the non-NaN patterns as the numbers they encode:
    /// the magnitude, negated when the sign bit is set. Both zeros have rank 0.
    pub open spec fn rank(self) -> int {
        if self.bits < SIGN_BIT {
            self.magnitude()
        } else {
            -self.magnitude()
        }
    }

    /// IEEE-754 `<`: false whenever either side is a NaN.
    pub open spec fn spec_lt(self, other: Scalar) -> bool {
        !self.is_nan() && !other.is_nan() && self.rank() < other.rank()
    }

    /// IEEE-754 `<=`: false whenever either side is a NaN.
    pub open spec fn spec_le(self, other: Scalar) -> bool {
        !self.is_nan() && !other.is_nan() && self.rank() <= other.rank()
    }

    /// IEEE-754 `>`.
    pub open spec fn spec_gt(self, other: Scalar) -> bool {
        other.spec_lt(self)
    }

    /// IEEE-754 `>=`.
    pub open spec fn spec_ge(self, other: Scalar) -> bool {
        other.spec_le(self)
    }

    /// Wraps a bit pattern.
    pub fn from_bits(bits: u32) -> (s: Scalar)
        ensures
            s.bits == bits,
    {
        Scalar { bits }
    }

    /// The bit pattern.
    pub fn to_bits(self) -> (bits: u32)
        ensures
            bits == self.bits,
    {
        self.bits
    }

    /// The four bytes of the pattern, least significant first.
    pub fn to_le_bytes(self) -> (bytes: [u8; 4])
        ensures
            bytes@ == le_bytes(self.bits),
    {
        u32_le_bytes(self.bits)
    }

    fn magnitude_bits(self) -> (m: u32)
        ensures
            m == self.magnitude(),
    {
        if self.bits < SIGN_BIT {
            self.bits
        } else {
            self.bits - SIGN_BIT
        }
    }

    /// The rank of the pattern.
    pub fn rank_value(self) -> (r: i64)
        ensures
            r == self.rank(),
            -0x8000_0000 < r < 0x8000_0000,
    {
        let m: u32 = self.magnitude_bits();
        if self.bits < SIGN_BIT {
            m as i64
        } else {
            -(m as i64)
        }
    }

    /// Whether the pattern encodes a NaN.
    pub fn nan(self) -> (r: bool)
        ensures
            r == self.is_nan(),
    {
        self.magnitude_bits() > INFINITY_BITS
    }

    #[verifier::when_used_as_spec(spec_lt)]
    pub fn lt(self, other: Scalar) -> (r: bool)
        ensures
            r == self.spec_lt(other),
    {
        !self.nan() && !other.nan() && self.rank_value() < other.rank_value()
    }

    #[verifier::when_used_as_spec(spec_le)]
    pub fn le(self, other: Scalar) -> (r: bool)
        ensures
            r == self.spec_le(other),
    {
        !self.nan() && !other.nan() && self.rank_value() <= other.rank_value()
    }

    #[verifier::when_used_as_spec(spec_gt)]
    pub fn gt(self, other: Scalar) -> (r: bool)
        ensures
            r == self.spec_gt(other),
    {
        other.lt(self)
    }

    #[verifier::when_used_as_spec(spec_ge)]
    pub fn ge(self, other: Scalar) -> (r: bool)
        ensures
            r == self.spec_ge(other),
    {
        other.le(self)
    }
}

/// The little-endian bytes of a 32-bit word.
pub open spec fn le_bytes(word: u32) -> Seq<u8> {
    seq![
        (word % 256) as u8,
        ((word / 256) % 256) as u8,
        ((word / 65536) % 256) as u8,
        (word / 16777216) as u8,
    ]
}

/// Splits a 32-bit word into its bytes, least significant first.
pub fn u32_le_bytes(word: u32) -> (bytes: [u8; 4])
    ensures
        bytes@ == le_bytes(word),
{
    let b0: u8 = (word & 0xff) as u8;
    let b1: u8 = ((word >> 8) & 0xff) as u8;
    let b2: u8 = ((word >> 16) & 0xff) as u8;
    let b3: u8 = (word >> 24) as u8;
    assert(word & 0xff == word % 256) by (bit_vector);
    assert((word >> 8) & 0xff == (word / 256) % 256) by (bit_vector);
    assert((word >> 16) & 0xff == (word / 65536) % 256) by (bit_vector);
    assert(word >> 24 == word / 16777216 && (word >> 24) < 256) by (bit_vector);
    let bytes: [u8; 4] = [b0, b1, b2, b3];
    assert(bytes@ =~= le_bytes(word));
    bytes
}

} // verus!
