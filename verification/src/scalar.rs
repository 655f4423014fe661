//! Real numbers in binary64 format, held by their bit patterns.
//!
//! A pattern has a sign bit, eleven exponent bits and fifty-two fraction
//! bits. Apart from the patterns that stand for "not a number", the numeric
//! order of the values is the order of their signed magnitudes, which is
//! what [`Scalar::ordinal`] returns.

use vstd::prelude::*;

verus! {

/// Pattern with only the sign bit set. It is also the pattern of negative zero.
pub const SIGN_BIT: u64 = 0x8000_0000_0000_0000;

/// Pattern of positive infinity. Every larger magnitude is not a number.
pub const INFINITY_BITS: u64 = 0x7FF0_0000_0000_0000;

/// Pattern of the number one.
pub const ONE_BITS: u64 = 0x3FF0_0000_0000_0000;

/// Pattern of the binary64 number nearest to 0.1.
pub const TENTH_BITS: u64 = 0x3FB9_9999_9999_999A;

/// Pattern of the binary64 number nearest to 0.2.
pub const FIFTH_BITS: u64 = 0x3FC9_9999_9999_999A;

/// Pattern of the number 0.5.
pub const HALF_BITS: u64 = 0x3FE0_0000_0000_0000;

/// Pattern of the binary64 number nearest to 0.6.
pub const THREE_FIFTHS_BITS: u64 = 0x3FE3_3333_3333_3333;

/// Pattern of the binary64 number nearest to 0.7.
pub const SEVEN_TENTHS_BITS: u64 = 0x3FE6_6666_6666_6666;

/// Pattern of the binary64 number nearest to 0.8.
pub const FOUR_FIFTHS_BITS: u64 = 0x3FE9_9999_9999_999A;

/// Pattern of the binary64 number nearest to 0.9.
pub const NINE_TENTHS_BITS: u64 = 0x3FEC_CCCC_CCCC_CCCD;

/// Pattern of the number 10.
pub const TEN_BITS: u64 = 0x4024_0000_0000_0000;

/// Pattern of the number 200.
pub const TWO_HUNDRED_BITS: u64 = 0x4069_0000_0000_0000;

/// A binary64 value.
#[derive(Clone, Copy, Debug, PartialEq, Eq, Structural)]
pub struct Scalar {
    pub bits: u64,
}

impl Scalar {
    /// Whether the sign bit is set.
    pub open spec fn spec_is_sign_negative(self) -> bool {
        self.bits >= SIGN_BIT
    }

    /// The pattern with the sign bit cleared.
    pub open spec fn magnitude(self) -> int {
        if self.bits >= SIGN_BIT {
            self.bits - SIGN_BIT
        } else {
            self.bits as int
        }
    }

    /// Whether the pattern stands for no number.
    pub open spec fn spec_is_nan(self) -> bool {
        self.magnitude() > INFINITY_BITS
    }

    /// The signed magnitude. For two values that are numbers, the one with
    /// the smaller ordinal is the smaller number, and equal ordinals mean
    /// equal numbers; both zeros have ordinal zero.
    pub open spec fn ordinal(self) -> int {
        if self.spec_is_sign_negative() {
            -self.magnitude()
        } else {
            self.magnitude()
        }
    }

    /// The value with the opposite sign: the pattern with the sign bit flipped.
    pub open spec fn spec_neg(self) -> Scalar {
        if self.bits >= SIGN_BIT {
            Scalar { bits: (self.bits - SIGN_BIT) as u64 }
        } else {
            Scalar { bits: (self.bits + SIGN_BIT) as u64 }
        }
    }

    /// `self < other` as numbers; false when either is not a number.
    pub open spec fn spec_lt(self, other: Scalar) -> bool {
        !self.spec_is_nan() && !other.spec_is_nan() && self.ordinal() < other.ordinal()
    }

    /// `self <= other` as numbers; false when either is not a number.
    pub open spec fn spec_le(self, other: Scalar) -> bool {
        !self.spec_is_nan() && !other.spec_is_nan() && self.ordinal() <= other.ordinal()
    }

    /// The value with the given pattern.
    pub fn from_bits(bits: u64) -> (s: Scalar)
        ensures
            s.bits == bits,
    {
        Scalar { bits }
    }

    /// The pattern of the value.
    pub fn to_bits(self) -> (bits: u64)
        ensures
            bits == self.bits,
    {
        self.bits
    }

    /// Positive zero.
    pub open spec fn spec_zero() -> Scalar {
        Scalar { bits: 0 }
    }

    /// The number one.
    pub open spec fn spec_one() -> Scalar {
        Scalar { bits: ONE_BITS }
    }

    /// Positive zero.
    #[verifier::when_used_as_spec(spec_zero)]
    pub fn zero() -> (s: Scalar)
        ensures
            s == Scalar::spec_zero(),
    {
        Scalar { bits: 0 }
    }

    /// The number one.
    #[verifier::when_used_as_spec(spec_one)]
    pub fn one() -> (s: Scalar)
        ensures
            s == Scalar::spec_one(),
    {
        Scalar { bits: ONE_BITS }
    }

    /// Whether the sign bit is set. True of negative zero as well.
    #[verifier::when_used_as_spec(spec_is_sign_negative)]
    pub fn is_sign_negative(self) -> (b: bool)
        ensures
            b == self.spec_is_sign_negative(),
    {
        self.bits >= SIGN_BIT
    }

    /// Whether the value is not a number.
    #[verifier::when_used_as_spec(spec_is_nan)]
    pub fn is_nan(self) -> (b: bool)
        ensures
            b == self.spec_is_nan(),
    {
        if self.bits >= SIGN_BIT {
            self.bits - SIGN_BIT > INFINITY_BITS
        } else {
            self.bits > INFINITY_BITS
        }
    }

    /// The signed magnitude as a machine integer.
    pub fn rank(self) -> (k: i64)
        ensures
            k == self.ordinal(),
    {
        if self.bits >= SIGN_BIT {
            let m: u64 = self.bits - SIGN_BIT;
            -(m as i64)
        } else {
            self.bits as i64
        }
    }

    /// The value with the opposite sign.
    #[verifier::when_used_as_spec(spec_neg)]
    pub fn neg(self) -> (s: Scalar)
        ensures
            s == self.spec_neg(),
    {
        if self.bits >= SIGN_BIT {
            Scalar { bits: self.bits - SIGN_BIT }
        } else {
            Scalar { bits: self.bits + SIGN_BIT }
        }
    }

    /// `self < other` as numbers; false when either is not a number.
    #[verifier::when_used_as_spec(spec_lt)]
    pub fn lt(self, other: Scalar) -> (b: bool)
        ensures
            b == self.spec_lt(other),
    {
        !self.is_nan() && !other.is_nan() && self.rank() < other.rank()
    }

    /// `self <= other` as numbers; false when either is not a number.
    #[verifier::when_used_as_spec(spec_le)]
    pub fn le(self, other: Scalar) -> (b: bool)
        ensures
            b == self.spec_le(other),
    {
        !self.is_nan() && !other.is_nan() && self.rank() <= other.rank()
    }
}

/// Changing the sign twice gives the value back; changing it once mirrors the
/// ordinal and keeps what is not a number so.
pub proof fn lemma_neg_mirrors(s: Scalar)
    ensures
        s.neg().neg() == s,
        s.neg().ordinal() == -s.ordinal(),
        s.neg().is_nan() == s.is_nan(),
{
}

/// On numbers `<=` is a total order up to the sign of zero, and `<` is its
/// strict part.
pub proof fn lemma_order_of_numbers(a: Scalar, b: Scalar, c: Scalar)
    requires
        !a.is_nan(),
        !b.is_nan(),
        !c.is_nan(),
    ensures
        a.le(a),
        a.le(b) || b.le(a),
        a.le(b) && b.le(c) ==> a.le(c),
        a.le(b) && b.le(a) ==> a.ordinal() == b.ordinal(),
        a.lt(b) <==> a.le(b) && !b.le(a),
{
}

/// What is not a number compares false with everything, itself included.
pub proof fn lemma_nan_is_unordered(a: Scalar, b: Scalar)
    requires
        a.is_nan(),
    ensures
        !a.lt(b),
        !b.lt(a),
        !a.le(b),
        !b.le(a),
{
}

} // verus!
