//! IEEE 754 binary64 numbers, held by their bit pattern.
//!
//! Comparison, sign handling and classification are defined directly on the
//! bits and proved here. Operations that round come from outside crates and
//! are named by uninterpreted functions of the operand bits.

use crate::number::arith::{
    add_bits, bits_of_integer, cos_bits, cosine_bits, decimal_text, div_bits, integer_bits,
    integral_bits, mul_bits, product_bits, quotient_bits, root_bits, round_bits, sin_bits,
    sine_bits, sqrt_bits, sum_bits, text_of_bits, truncate_bits, truncated, Rounding,
};
use vstd::prelude::*;

verus! {

/// Bit pattern of the sign bit.
pub const SIGN_BIT: u64 = 0x8000_0000_0000_0000;

/// Bit pattern of positive infinity; every larger magnitude is a NaN.
pub const INFINITY_BITS: u64 = 0x7ff0_0000_0000_0000;

/// More digits than any number has before or after its decimal point: a
/// text of this width needs no exponent, and one of this precision no
/// rounding.
pub const PLAIN_WIDTH: usize = 1100;

/// Bit pattern of 0.
pub const ZERO_BITS: u64 = 0;

/// Bit pattern of 0.25.
pub const QUARTER_BITS: u64 = 0x3fd0_0000_0000_0000;

/// Bit pattern of 0.5.
pub const HALF_BITS: u64 = 0x3fe0_0000_0000_0000;

/// Bit pattern of 0.75.
pub const THREE_QUARTERS_BITS: u64 = 0x3fe8_0000_0000_0000;

/// Bit pattern of 1.
pub const ONE_BITS: u64 = 0x3ff0_0000_0000_0000;

/// Bit pattern of 1.5.
pub const ONE_AND_HALF_BITS: u64 = 0x3ff8_0000_0000_0000;

/// Bit pattern of 2.
pub const TWO_BITS: u64 = 0x4000_0000_0000_0000;

/// Bit pattern of 10.
pub const TEN_BITS: u64 = 0x4024_0000_0000_0000;

/// Bit pattern of 100.
pub const HUNDRED_BITS: u64 = 0x4059_0000_0000_0000;

/// Bit pattern of 2^-52, the gap between 1 and the next larger number.
pub const EPSILON_BITS: u64 = 0x3cb0_0000_0000_0000;

/// Bit pattern of the number nearest to pi.
pub const PI_BITS: u64 = 0x4009_21fb_5444_2d18;

/// An IEEE 754 binary64 number.
#[derive(Clone, Copy, Debug)]
pub struct Float {
    pub bits: u64,
}

impl Float {
    /// The bit pattern without its sign bit.
    pub open spec fn magnitude(self) -> int {
        if self.bits >= SIGN_BIT {
            self.bits - SIGN_BIT
        } else {
            self.bits as int
        }
    }

    /// Whether the sign bit is set (true of `-0.0` and of negative NaNs too).
    pub open spec fn sign(self) -> bool {
        self.bits >= SIGN_BIT
    }

    /// Whether `self` is a NaN: its magnitude lies above that of infinity.
    pub open spec fn spec_is_nan(self) -> bool {
        self.magnitude() > INFINITY_BITS
    }

    /// Position of a non-NaN value on the number line: two values compare as
    /// their ranks do. Both zeros have rank 0.
    pub open spec fn rank(self) -> int {
        if self.sign() {
            -self.magnitude()
        } else {
            self.magnitude()
        }
    }

    /// Whether `self` is less than `other`. False where either is a NaN.
    pub open spec fn spec_lt(self, other: Float) -> bool {
        !self.spec_is_nan() && !other.spec_is_nan() && self.rank() < other.rank()
    }

    /// Whether `self` is less than or the same as `other`. False where either is
    /// a NaN.
    pub open spec fn spec_le(self, other: Float) -> bool {
        !self.spec_is_nan() && !other.spec_is_nan() && self.rank() <= other.rank()
    }

    /// Whether `self` is greater than `other`. False where either is a NaN.
    pub open spec fn spec_gt(self, other: Float) -> bool {
        other.spec_lt(self)
    }

    /// Whether `self` is greater than or the same as `other`. False where either
    /// is a NaN.
    pub open spec fn spec_ge(self, other: Float) -> bool {
        other.spec_le(self)
    }

    /// Numeric equality: no NaN equals anything, and the two zeros are equal.
    pub open spec fn spec_same(self, other: Float) -> bool {
        !self.spec_is_nan() && !other.spec_is_nan() && self.rank() == other.rank()
    }

    /// `self` with its sign bit turned over.
    pub open spec fn spec_neg(self) -> Float {
        if self.bits >= SIGN_BIT {
            Float { bits: (self.bits - SIGN_BIT) as u64 }
        } else {
            Float { bits: (self.bits + SIGN_BIT) as u64 }
        }
    }

    /// `self` with its sign bit cleared.
    pub open spec fn spec_abs(self) -> Float {
        if self.bits >= SIGN_BIT {
            Float { bits: (self.bits - SIGN_BIT) as u64 }
        } else {
            self
        }
    }

    /// The smaller operand; a NaN operand yields the other one.
    pub open spec fn spec_min(self, other: Float) -> Float {
        if self.spec_is_nan() {
            other
        } else if other.spec_is_nan() {
            self
        } else if other.spec_lt(self) {
            other
        } else {
            self
        }
    }

    /// The larger operand; a NaN operand yields the other one.
    pub open spec fn spec_max(self, other: Float) -> Float {
        if self.spec_is_nan() {
            other
        } else if other.spec_is_nan() {
            self
        } else if self.spec_lt(other) {
            other
        } else {
            self
        }
    }

    /// `self` moved into `[lo, hi]`; a NaN stays as it is.
    pub open spec fn spec_clamp(self, lo: Float, hi: Float) -> Float {
        if self.spec_lt(lo) {
            lo
        } else if self.spec_gt(hi) {
            hi
        } else {
            self
        }
    }

    /// The sum of `self` and `other`.
    pub open spec fn spec_add(self, other: Float) -> Float {
        Float { bits: sum_bits(self.bits, other.bits) }
    }

    /// Subtraction is addition of the negated operand.
    pub open spec fn spec_sub(self, other: Float) -> Float {
        self.spec_add(other.spec_neg())
    }

    /// The product of `self` and `other`.
    pub open spec fn spec_mul(self, other: Float) -> Float {
        Float { bits: product_bits(self.bits, other.bits) }
    }

    /// The quotient of `self` by `other`.
    pub open spec fn spec_div(self, other: Float) -> Float {
        Float { bits: quotient_bits(self.bits, other.bits) }
    }

    /// The largest whole number that is not above `self`.
    pub open spec fn spec_floor(self) -> Float {
        Float { bits: integral_bits(self.bits, Rounding::Down) }
    }

    /// The smallest whole number that is not below `self`.
    pub open spec fn spec_ceil(self) -> Float {
        Float { bits: integral_bits(self.bits, Rounding::Up) }
    }

    /// The whole number nearest to `self`, a half going away from zero.
    pub open spec fn spec_round(self) -> Float {
        Float { bits: integral_bits(self.bits, Rounding::Nearest) }
    }

    /// The square root of `self`.
    pub open spec fn spec_sqrt(self) -> Float {
        Float { bits: root_bits(self.bits) }
    }

    /// The sine of `self`, taken in radians.
    pub open spec fn spec_sin(self) -> Float {
        Float { bits: sine_bits(self.bits) }
    }

    /// The cosine of `self`, taken in radians.
    pub open spec fn spec_cos(self) -> Float {
        Float { bits: cosine_bits(self.bits) }
    }

    /// The number nearest to the integer `n`.
    pub open spec fn spec_from_usize(n: usize) -> Float {
        Float { bits: integer_bits(n as u64) }
    }

    /// The number nearest to the integer `v`.
    pub open spec fn spec_from_i64(v: i64) -> Float {
        if v >= 0 {
            Float { bits: integer_bits(v as u64) }
        } else {
            Float { bits: integer_bits((-v) as u64) }.spec_neg()
        }
    }

    /// `self` cut to an integer: the fraction is dropped, and what does not
    /// fit in a `usize` becomes the nearest bound.
    pub open spec fn spec_to_usize(self) -> usize {
        if truncated(self.bits) > usize::MAX {
            usize::MAX
        } else {
            truncated(self.bits) as usize
        }
    }

    /// The decimal text of `self` in full: every digit of its binary value.
    pub open spec fn spec_to_exact_text(self) -> Seq<char> {
        decimal_text(self.bits, PLAIN_WIDTH, PLAIN_WIDTH)
    }

    /// The number with the given bit pattern.
    pub open spec fn spec_from_bits(bits: u64) -> Float {
        Float { bits }
    }

    /// The number with the given bit pattern.
    #[verifier::when_used_as_spec(spec_from_bits)]
    pub fn from_bits(bits: u64) -> (r: Float)
        ensures
            r == Float::spec_from_bits(bits),
            r.bits == bits,
    {
        Float { bits }
    }

    /// The bit pattern of `self`.
    pub fn to_bits(self) -> (r: u64)
        ensures
            r == self.bits,
    {
        self.bits
    }

    /// Whether `self` is a NaN.
    #[verifier::when_used_as_spec(spec_is_nan)]
    pub fn is_nan(self) -> (r: bool)
        ensures
            r == self.spec_is_nan(),
    {
        let m: u64 = if self.bits >= SIGN_BIT {
            self.bits - SIGN_BIT
        } else {
            self.bits
        };
        m > INFINITY_BITS
    }

    /// The magnitude bits of `self`.
    fn magnitude_bits(self) -> (m: u64)
        ensures
            m == self.magnitude(),
            m < SIGN_BIT,
    {
        if self.bits >= SIGN_BIT {
            self.bits - SIGN_BIT
        } else {
            self.bits
        }
    }

    /// Whether `self` is less than `other`.
    #[verifier::when_used_as_spec(spec_lt)]
    pub fn lt(self, other: Float) -> (r: bool)
        ensures
            r == self.spec_lt(other),
    {
        if self.is_nan() || other.is_nan() {
            return false;
        }
        let a: u64 = self.magnitude_bits();
        let b: u64 = other.magnitude_bits();
        if self.bits >= SIGN_BIT {
            if other.bits >= SIGN_BIT {
                a > b
            } else {
                a > 0 || b > 0
            }
        } else {
            if other.bits >= SIGN_BIT {
                false
            } else {
                a < b
            }
        }
    }

    /// Whether `self` is less than or the same as `other`.
    #[verifier::when_used_as_spec(spec_le)]
    pub fn le(self, other: Float) -> (r: bool)
        ensures
            r == self.spec_le(other),
    {
        if self.is_nan() || other.is_nan() {
            return false;
        }
        let a: u64 = self.magnitude_bits();
        let b: u64 = other.magnitude_bits();
        if self.bits >= SIGN_BIT {
            if other.bits >= SIGN_BIT {
                a >= b
            } else {
                true
            }
        } else {
            if other.bits >= SIGN_BIT {
                a == 0 && b == 0
            } else {
                a <= b
            }
        }
    }

    /// Whether `self` is greater than `other`.
    #[verifier::when_used_as_spec(spec_gt)]
    pub fn gt(self, other: Float) -> (r: bool)
        ensures
            r == self.spec_gt(other),
    {
        other.lt(self)
    }

    /// Whether `self` is greater than or the same as `other`.
    #[verifier::when_used_as_spec(spec_ge)]
    pub fn ge(self, other: Float) -> (r: bool)
        ensures
            r == self.spec_ge(other),
    {
        other.le(self)
    }

    /// Whether `self` and `other` are the same number.
    #[verifier::when_used_as_spec(spec_same)]
    pub fn same(self, other: Float) -> (r: bool)
        ensures
            r == self.spec_same(other),
    {
        self.le(other) && other.le(self)
    }

    /// `self` with the opposite sign.
    #[verifier::when_used_as_spec(spec_neg)]
    pub fn neg(self) -> (r: Float)
        ensures
            r == self.spec_neg(),
    {
        if self.bits >= SIGN_BIT {
            Float { bits: self.bits - SIGN_BIT }
        } else {
            Float { bits: self.bits + SIGN_BIT }
        }
    }

    /// The magnitude of `self`.
    #[verifier::when_used_as_spec(spec_abs)]
    pub fn abs(self) -> (r: Float)
        ensures
            r == self.spec_abs(),
    {
        Float { bits: self.magnitude_bits() }
    }

    /// The smaller of `self` and `other`; the other one where one is a NaN.
    #[verifier::when_used_as_spec(spec_min)]
    pub fn min(self, other: Float) -> (r: Float)
        ensures
            r == self.spec_min(other),
    {
        if self.is_nan() {
            other
        } else if other.is_nan() {
            self
        } else if other.lt(self) {
            other
        } else {
            self
        }
    }

    /// The larger of `self` and `other`; the other one where one is a NaN.
    #[verifier::when_used_as_spec(spec_max)]
    pub fn max(self, other: Float) -> (r: Float)
        ensures
            r == self.spec_max(other),
    {
        if self.is_nan() {
            other
        } else if other.is_nan() {
            self
        } else if self.lt(other) {
            other
        } else {
            self
        }
    }

    /// `self` moved into `[lo, hi]`.
    #[verifier::when_used_as_spec(spec_clamp)]
    pub fn clamp(self, lo: Float, hi: Float) -> (r: Float)
        ensures
            r == self.spec_clamp(lo, hi),
    {
        if self.lt(lo) {
            lo
        } else if self.gt(hi) {
            hi
        } else {
            self
        }
    }

    /// The sum of `self` and `other`, rounded to the nearest number.
    #[verifier::when_used_as_spec(spec_add)]
    pub fn add(self, other: Float) -> (r: Float)
        ensures
            r == self.spec_add(other),
    {
        Float { bits: add_bits(self.bits, other.bits) }
    }

    /// The difference of `self` and `other`, rounded to the nearest number.
    #[verifier::when_used_as_spec(spec_sub)]
    pub fn sub(self, other: Float) -> (r: Float)
        ensures
            r == self.spec_sub(other),
    {
        self.add(other.neg())
    }

    /// The product of `self` and `other`, rounded to the nearest number.
    #[verifier::when_used_as_spec(spec_mul)]
    pub fn mul(self, other: Float) -> (r: Float)
        ensures
            r == self.spec_mul(other),
    {
        Float { bits: mul_bits(self.bits, other.bits) }
    }

    /// The quotient of `self` by `other`, rounded to the nearest number.
    #[verifier::when_used_as_spec(spec_div)]
    pub fn div(self, other: Float) -> (r: Float)
        ensures
            r == self.spec_div(other),
    {
        Float { bits: div_bits(self.bits, other.bits) }
    }

    /// `self` rounded down to a whole number.
    #[verifier::when_used_as_spec(spec_floor)]
    pub fn floor(self) -> (r: Float)
        ensures
            r == self.spec_floor(),
    {
        Float { bits: round_bits(self.bits, Rounding::Down) }
    }

    /// `self` rounded up to a whole number.
    #[verifier::when_used_as_spec(spec_ceil)]
    pub fn ceil(self) -> (r: Float)
        ensures
            r == self.spec_ceil(),
    {
        Float { bits: round_bits(self.bits, Rounding::Up) }
    }

    /// `self` rounded to the nearest whole number, a half away from zero.
    #[verifier::when_used_as_spec(spec_round)]
    pub fn round(self) -> (r: Float)
        ensures
            r == self.spec_round(),
    {
        Float { bits: round_bits(self.bits, Rounding::Nearest) }
    }

    /// The square root of `self`.
    #[verifier::when_used_as_spec(spec_sqrt)]
    pub fn sqrt(self) -> (r: Float)
        ensures
            r == self.spec_sqrt(),
    {
        Float { bits: sqrt_bits(self.bits) }
    }

    /// The sine of `self`, taken in radians.
    #[verifier::when_used_as_spec(spec_sin)]
    pub fn sin(self) -> (r: Float)
        ensures
            r == self.spec_sin(),
    {
        Float { bits: sin_bits(self.bits) }
    }

    /// The cosine of `self`, taken in radians.
    #[verifier::when_used_as_spec(spec_cos)]
    pub fn cos(self) -> (r: Float)
        ensures
            r == self.spec_cos(),
    {
        Float { bits: cos_bits(self.bits) }
    }

    /// The number nearest to the integer `n`.
    #[verifier::when_used_as_spec(spec_from_usize)]
    pub fn from_usize(n: usize) -> (r: Float)
        ensures
            r == Float::spec_from_usize(n),
    {
        Float { bits: bits_of_integer(n as u64) }
    }

    /// The number nearest to the integer `v`.
    #[verifier::when_used_as_spec(spec_from_i64)]
    pub fn from_i64(v: i64) -> (r: Float)
        ensures
            r == Float::spec_from_i64(v),
    {
        if v >= 0 {
            Float { bits: bits_of_integer(v as u64) }
        } else {
            let magnitude: u64 = (-(v + 1)) as u64 + 1;
            Float { bits: bits_of_integer(magnitude) }.neg()
        }
    }

    /// `self` cut to an integer, as a cast does: without its fraction, 0 for a
    /// NaN, and the nearest bound for what does not fit.
    #[verifier::when_used_as_spec(spec_to_usize)]
    pub fn to_usize(self) -> (r: usize)
        ensures
            r == self.spec_to_usize(),
    {
        let t: u64 = truncate_bits(self.bits);
        if t > usize::MAX as u64 {
            usize::MAX
        } else {
            t as usize
        }
    }

    /// `self` written in decimal with every digit of its binary value and
    /// without an exponent.
    pub fn to_exact_text(self) -> (r: String)
        ensures
            r@ == self.spec_to_exact_text(),
    {
        text_of_bits(self.bits, PLAIN_WIDTH, PLAIN_WIDTH)
    }
}

/// Any two numbers can be compared: one is less than the other, or they are
/// the same.
pub proof fn lemma_numbers_are_ordered(a: Float, b: Float)
    requires
        !a.spec_is_nan(),
        !b.spec_is_nan(),
    ensures
        a.spec_lt(b) || b.spec_lt(a) || a.spec_same(b),
        a.spec_le(b) <==> a.spec_lt(b) || a.spec_same(b),
        !(a.spec_lt(b) && b.spec_lt(a)),
        a.spec_le(b) || b.spec_le(a),
{
}

/// The order is transitive.
pub proof fn lemma_order_is_transitive(a: Float, b: Float, c: Float)
    ensures
        a.spec_le(b) && b.spec_le(c) ==> a.spec_le(c),
        a.spec_lt(b) && b.spec_le(c) ==> a.spec_lt(c),
        a.spec_le(b) && b.spec_lt(c) ==> a.spec_lt(c),
{
}

/// A NaN compares with nothing, not even with itself.
pub proof fn lemma_nan_is_unordered(a: Float, b: Float)
    requires
        a.spec_is_nan() || b.spec_is_nan(),
    ensures
        !a.spec_lt(b),
        !a.spec_le(b),
        !a.spec_gt(b),
        !a.spec_ge(b),
        !a.spec_same(b),
{
}

/// Negating twice gives the number back, the magnitude of a number is not
/// below zero, and a number and its negation have the same magnitude.
pub proof fn lemma_sign_laws(a: Float)
    ensures
        a.spec_neg().spec_neg() == a,
        a.spec_neg().spec_abs() == a.spec_abs(),
        a.spec_abs().spec_abs() == a.spec_abs(),
        a.spec_is_nan() == a.spec_neg().spec_is_nan(),
        !a.spec_is_nan() ==> a.spec_abs().spec_ge(Float::spec_from_bits(ZERO_BITS)),
        !a.spec_is_nan() ==> a.spec_neg().rank() == -a.rank(),
{
}

/// The smaller and the larger of two numbers are those two numbers, in
/// order.
pub proof fn lemma_min_max_laws(a: Float, b: Float)
    requires
        !a.spec_is_nan(),
        !b.spec_is_nan(),
    ensures
        a.spec_min(b) == a || a.spec_min(b) == b,
        a.spec_max(b) == a || a.spec_max(b) == b,
        a.spec_min(b).spec_le(a) && a.spec_min(b).spec_le(b),
        a.spec_max(b).spec_ge(a) && a.spec_max(b).spec_ge(b),
        a.spec_min(b).spec_le(a.spec_max(b)),
{
}

/// A number moved into an interval lies in it.
pub proof fn lemma_clamp_is_within(a: Float, lo: Float, hi: Float)
    requires
        lo.spec_le(hi),
        !a.spec_is_nan(),
    ensures
        lo.spec_le(a.spec_clamp(lo, hi)),
        a.spec_clamp(lo, hi).spec_le(hi),
        lo.spec_le(a) && a.spec_le(hi) ==> a.spec_clamp(lo, hi) == a,
{
}

} // verus!
