//! Logarithms, exponentials and powers.
//!
//! Logarithms and exponentials are computed to 128 bits by an
//! arbitrary-precision crate, and a power as the exponential of a product
//! with a logarithm. What is proved here is what surrounds that: taking a
//! number apart into mantissa and exponent, rounding the wide result to
//! binary64, and the values at the zeros, the infinities and NaN, which
//! IEEE 754 fixes.

use crate::number::arith::{
    exp_wide, ln_wide, mul_wide, wide_exponential, wide_logarithm, wide_product, Wide, WideNumber,
};
use crate::number::float::{Float, HALF_BITS, INFINITY_BITS, ONE_BITS, SIGN_BIT, ZERO_BITS};
use vstd::prelude::*;

verus! {

/// 2^52: the first bit pattern with an exponent, and the hidden bit of a
/// mantissa.
pub const HIDDEN_BIT: u64 = 0x0010_0000_0000_0000;

/// 2^63, the top bit of a word.
pub const TOP_BIT: u64 = 0x8000_0000_0000_0000;

/// Bit pattern of the NaN that an invalid operation gives.
pub const NAN_BITS: u64 = 0x7ff8_0000_0000_0000;

/// 2 to the power `k`.
pub open spec fn pow2(k: nat) -> nat
    decreases k,
{
    if k == 0 {
        1
    } else {
        2 * pow2((k - 1) as nat)
    }
}

proof fn lemma_pow2_grows(a: nat, b: nat)
    requires
        a <= b,
    ensures
        pow2(a) <= pow2(b),
        pow2(a) >= 1,
    decreases b,
{
    if a < b {
        lemma_pow2_grows(a, (b - 1) as nat);
    } else if a > 0 {
        lemma_pow2_grows((a - 1) as nat, (a - 1) as nat);
    }
}

proof fn lemma_pow2_63()
    ensures
        pow2(63) == 0x8000_0000_0000_0000,
{
    assert(pow2(63) == 0x8000_0000_0000_0000) by {
        reveal_with_fuel(pow2, 64);
    }
}

fn two_to_the(k: u64) -> (r: u64)
    requires
        k <= 63,
    ensures
        r == pow2(k as nat),
        r >= 1,
{
    let mut r: u64 = 1;
    let mut i: u64 = 0;
    while i < k
        invariant
            i <= k <= 63,
            r == pow2(i as nat),
            r >= 1,
        decreases k - i,
    {
        proof {
            lemma_pow2_grows((i + 1) as nat, 63);
            lemma_pow2_63();
        }
        r = r * 2;
        i += 1;
    }
    r
}

impl Float {
    /// The whole number `m` of the pair `(m, e)` with `|self| = m * 2^e`,
    /// for a number that is neither an infinity nor a NaN.
    pub open spec fn mantissa(self) -> u64 {
        if self.magnitude() < HIDDEN_BIT {
            self.magnitude() as u64
        } else {
            (self.magnitude() % (HIDDEN_BIT as int) + HIDDEN_BIT) as u64
        }
    }

    /// The exponent `e` of the pair `(m, e)` with `|self| = m * 2^e`.
    pub open spec fn exponent(self) -> int {
        if self.magnitude() < HIDDEN_BIT {
            -1074
        } else {
            self.magnitude() / (HIDDEN_BIT as int) - 1075
        }
    }

    /// Whether `self` is neither an infinity nor a NaN.
    pub open spec fn spec_is_finite(self) -> bool {
        self.magnitude() < INFINITY_BITS
    }

    /// Whether `self` is neither an infinity nor a NaN.
    #[verifier::when_used_as_spec(spec_is_finite)]
    pub fn is_finite(self) -> (r: bool)
        ensures
            r == self.spec_is_finite(),
    {
        self.abs().to_bits() < INFINITY_BITS
    }

    /// `self` as a wide number: its mantissa in the high word, and its
    /// exponent raised by 64.
    pub open spec fn widened(self) -> WideNumber {
        WideNumber {
            high: self.mantissa(),
            low: 0,
            exponent: (self.exponent() + 64) as i32,
            negative: self.sign(),
        }
    }

    fn widen(self) -> (r: WideNumber)
        requires
            self.spec_is_finite(),
        ensures
            r == self.widened(),
    {
        let magnitude = self.abs().to_bits();
        let negative = self.bits >= SIGN_BIT;
        if magnitude < HIDDEN_BIT {
            WideNumber { high: magnitude, low: 0, exponent: -1010, negative }
        } else {
            let field = magnitude / HIDDEN_BIT;
            WideNumber {
                high: magnitude % HIDDEN_BIT + HIDDEN_BIT,
                low: 0,
                exponent: (field as i32) - 1011,
                negative,
            }
        }
    }
}

/// Whether cutting `high * 2^64 + low` after the bits above bit `k` of
/// `high` rounds up: what is cut is more than half of the last bit kept, or
/// exactly half and the last bit kept is odd.
pub open spec fn cut_rounds_up(high: u64, low: u64, k: nat) -> bool {
    if k >= 65 {
        false
    } else if k == 64 {
        high > TOP_BIT || (high == TOP_BIT && low > 0)
    } else if k == 0 {
        low > TOP_BIT || (low == TOP_BIT && high % 2 == 1)
    } else {
        let rest = high as nat % pow2(k);
        let half = pow2((k - 1) as nat);
        rest > half || (rest == half && (low > 0 || (high as nat / pow2(k)) % 2 == 1))
    }
}

/// The bits above bit `k` of `high`.
pub open spec fn kept_bits(high: u64, k: nat) -> nat {
    if k >= 64 {
        0
    } else {
        high as nat / pow2(k)
    }
}

/// The magnitude bits of the binary64 number nearest to
/// `(high * 2^64 + low) * 2^(exponent - 128)`, a tie going to the even
/// neighbour. What is too large becomes infinity, and what is too small a
/// subnormal number or zero. A mantissa whose top bit is not set is taken
/// for zero.
pub open spec fn rounded_magnitude(high: u64, low: u64, exponent: int) -> nat {
    if high < TOP_BIT {
        0
    } else if exponent > 1024 {
        INFINITY_BITS as nat
    } else {
        let k: nat = if exponent >= -1021 {
            11
        } else {
            (11 + (-1021 - exponent)) as nat
        };
        let base: nat = if exponent >= -1021 {
            ((exponent + 1021) * HIDDEN_BIT) as nat
        } else {
            0
        };
        let bits = base + kept_bits(high, k) + if cut_rounds_up(high, low, k) {
            1nat
        } else {
            0nat
        };
        if bits >= INFINITY_BITS {
            INFINITY_BITS as nat
        } else {
            bits
        }
    }
}

/// The binary64 number nearest to a wide result.
pub open spec fn rounded(wide: Wide) -> Float {
    match wide {
        Wide::Nan => Float::from_bits(NAN_BITS),
        Wide::Infinite { negative } => Float::from_bits(
            if negative {
                (INFINITY_BITS + SIGN_BIT) as u64
            } else {
                INFINITY_BITS
            },
        ),
        Wide::Finite(n) => Float::from_bits(
            (rounded_magnitude(n.high, n.low, n.exponent as int) + if n.negative {
                SIGN_BIT as nat
            } else {
                0nat
            }) as u64,
        ),
    }
}

proof fn lemma_kept_bits_bounded(high: u64, k: nat)
    requires
        11 <= k,
    ensures
        kept_bits(high, k) < 2 * HIDDEN_BIT,
{
    if k < 64 {
        lemma_pow2_grows(11, k);
        assert(pow2(11) == 2048) by {
            reveal_with_fuel(pow2, 12);
        }
        let d = pow2(k);
        assert(high as nat / d <= high as nat / 2048) by {
            vstd::arithmetic::div_mod::lemma_div_is_ordered_by_denominator(high as int, 2048, d as int);
        }
    }
}

fn round_magnitude(high: u64, low: u64, exponent: i32) -> (r: u64)
    ensures
        r == rounded_magnitude(high, low, exponent as int),
        r <= INFINITY_BITS,
{
    if high < TOP_BIT {
        return 0;
    }
    if exponent > 1024 {
        return INFINITY_BITS;
    }
    let normal = exponent >= -1021;
    let k: u64 = if normal {
        11
    } else {
        (11 + (-1021 - (exponent as i64))) as u64
    };
    let base: u64 = if normal {
        ((exponent as i64 + 1021) as u64) * HIDDEN_BIT
    } else {
        0
    };
    proof {
        lemma_kept_bits_bounded(high, k as nat);
    }
    let (kept, up) = if k >= 65 {
        (0u64, false)
    } else if k == 64 {
        (0u64, high > TOP_BIT || (high == TOP_BIT && low > 0))
    } else {
        let d = two_to_the(k);
        let half = two_to_the(k - 1);
        let rest = high % d;
        let q = high / d;
        (q, rest > half || (rest == half && (low > 0 || q % 2 == 1)))
    };
    let bits = base + kept + if up {
        1
    } else {
        0
    };
    if bits >= INFINITY_BITS {
        INFINITY_BITS
    } else {
        bits
    }
}

fn round_wide(wide: Wide) -> (r: Float)
    ensures
        r == rounded(wide),
{
    match wide {
        Wide::Nan => Float::from_bits(NAN_BITS),
        Wide::Infinite { negative } => Float::from_bits(
            if negative {
                INFINITY_BITS + SIGN_BIT
            } else {
                INFINITY_BITS
            },
        ),
        Wide::Finite(n) => {
            let magnitude = round_magnitude(n.high, n.low, n.exponent);
            Float::from_bits(
                if n.negative {
                    magnitude + SIGN_BIT
                } else {
                    magnitude
                },
            )
        },
    }
}

impl Float {
    /// The natural logarithm of `self`: a NaN for a NaN and for a number
    /// below zero, negative infinity for either zero, infinity for infinity,
    /// and otherwise the logarithm rounded to the nearest number.
    pub open spec fn spec_ln(self) -> Float {
        if self.spec_is_nan() {
            self
        } else if self.magnitude() == 0 {
            Float::from_bits((INFINITY_BITS + SIGN_BIT) as u64)
        } else if self.sign() {
            Float::from_bits(NAN_BITS)
        } else if self.spec_is_infinite() {
            self
        } else {
            rounded(wide_logarithm(self.widened()))
        }
    }

    /// The natural logarithm of `self`.
    #[verifier::when_used_as_spec(spec_ln)]
    pub fn ln(self) -> (r: Float)
        ensures
            r == self.spec_ln(),
    {
        if self.is_nan() {
            return self;
        }
        let magnitude = self.abs().to_bits();
        if magnitude == 0 {
            return Float::from_bits(INFINITY_BITS + SIGN_BIT);
        }
        if self.bits >= SIGN_BIT {
            return Float::from_bits(NAN_BITS);
        }
        if magnitude == INFINITY_BITS {
            return self;
        }
        round_wide(ln_wide(self.widen()))
    }

    /// The logarithm of `self` to the given base: the quotient of the two
    /// natural logarithms.
    pub open spec fn spec_log(self, base: Float) -> Float {
        self.spec_ln().spec_div(base.spec_ln())
    }

    /// The logarithm of `self` to the given base.
    #[verifier::when_used_as_spec(spec_log)]
    pub fn log(self, base: Float) -> (r: Float)
        ensures
            r == self.spec_log(base),
    {
        self.ln().div(base.ln())
    }

    /// The exponential of `self`: a NaN for a NaN, infinity for infinity,
    /// zero for negative infinity, and otherwise the exponential rounded to
    /// the nearest number, which never has its sign bit set.
    pub open spec fn spec_exp(self) -> Float {
        if self.spec_is_nan() {
            self
        } else if self.spec_is_infinite() {
            if self.sign() {
                Float::from_bits(ZERO_BITS)
            } else {
                self
            }
        } else {
            rounded(wide_exponential(self.widened())).spec_abs()
        }
    }

    /// The exponential of `self`.
    #[verifier::when_used_as_spec(spec_exp)]
    pub fn exp(self) -> (r: Float)
        ensures
            r == self.spec_exp(),
    {
        if self.is_nan() {
            return self;
        }
        if self.is_infinite() {
            return if self.bits >= SIGN_BIT {
                Float::from_bits(ZERO_BITS)
            } else {
                self
            };
        }
        round_wide(exp_wide(self.widen())).abs()
    }

    /// Whether `self` is a whole number.
    pub open spec fn spec_is_whole(self) -> bool {
        self.spec_floor().spec_same(self)
    }

    /// Whether `self` is a whole number.
    #[verifier::when_used_as_spec(spec_is_whole)]
    pub fn is_whole(self) -> (r: bool)
        ensures
            r == self.spec_is_whole(),
    {
        self.floor().same(self)
    }

    /// Whether `self` is an odd whole number: it is whole and its half is
    /// not.
    pub open spec fn spec_is_odd(self) -> bool {
        self.spec_is_whole() && !self.spec_mul(Float::from_bits(HALF_BITS)).spec_is_whole()
    }

    /// Whether `self` is an odd whole number.
    #[verifier::when_used_as_spec(spec_is_odd)]
    pub fn is_odd(self) -> (r: bool)
        ensures
            r == self.spec_is_odd(),
    {
        self.is_whole() && !self.mul(Float::from_bits(HALF_BITS)).is_whole()
    }

    /// `magnitude` with the sign bit set where `negative` is.
    pub open spec fn signed(magnitude: u64, negative: bool) -> Float {
        if negative && magnitude < SIGN_BIT {
            Float::from_bits((magnitude + SIGN_BIT) as u64)
        } else {
            Float::from_bits(magnitude)
        }
    }

    /// The power of a number above zero, before it is rounded: the exponential
    /// of the product of the exponent and the logarithm of the base, all to
    /// 128 bits. Whatever is not a number on the way stays so.
    pub open spec fn wide_power(base: Float, y: Float) -> Wide {
        match wide_logarithm(base.spec_abs().widened()) {
            Wide::Finite(l) => match wide_product(l, y.widened()) {
                Wide::Finite(m) => wide_exponential(m),
                other => other,
            },
            other => other,
        }
    }

    /// `self` to the power `y`, as IEEE 754 defines it.
    ///
    /// Anything to the power zero is 1, and so is 1 to any power. Otherwise
    /// a NaN operand gives a NaN. An infinite power gives zero or infinity
    /// as the magnitude of the base lies below or above 1, and 1 for a base
    /// of -1. A base of zero or infinity gives zero or infinity as the power
    /// lies above or below zero, negative only for a negative base and an
    /// odd whole power. A base below zero has a power only for a whole
    /// exponent, negative for an odd one. In all other cases the result is
    /// the power of the magnitude rounded to the nearest number, with the
    /// sign just described.
    pub open spec fn spec_powf(self, y: Float) -> Float {
        let one = Float::from_bits(ONE_BITS);
        let zero = Float::from_bits(ZERO_BITS);
        if y.magnitude() == 0 || self == one {
            one
        } else if self.spec_is_nan() || y.spec_is_nan() {
            Float::from_bits(NAN_BITS)
        } else if y.spec_is_infinite() {
            if self.spec_abs() == one {
                one
            } else if self.spec_abs().spec_gt(one) == y.spec_gt(zero) {
                Float::from_bits(INFINITY_BITS)
            } else {
                zero
            }
        } else if self.magnitude() == 0 {
            Float::signed(
                if y.spec_lt(zero) {
                    INFINITY_BITS
                } else {
                    ZERO_BITS
                },
                self.sign() && y.spec_is_odd(),
            )
        } else if self.spec_is_infinite() {
            Float::signed(
                if y.spec_lt(zero) {
                    ZERO_BITS
                } else {
                    INFINITY_BITS
                },
                self.sign() && y.spec_is_odd(),
            )
        } else if self.sign() && !y.spec_is_whole() {
            Float::from_bits(NAN_BITS)
        } else {
            let power = rounded(Float::wide_power(self, y)).spec_abs();
            if self.sign() && y.spec_is_odd() {
                power.spec_neg()
            } else {
                power
            }
        }
    }

    /// `self` to the power `y`.
    #[verifier::when_used_as_spec(spec_powf)]
    pub fn powf(self, y: Float) -> (r: Float)
        ensures
            r == self.spec_powf(y),
    {
        let one = Float::from_bits(ONE_BITS);
        let zero = Float::from_bits(ZERO_BITS);
        if y.abs().to_bits() == 0 || self.bits == ONE_BITS {
            return one;
        }
        if self.is_nan() || y.is_nan() {
            return Float::from_bits(NAN_BITS);
        }
        if y.is_infinite() {
            return if self.abs().to_bits() == ONE_BITS {
                one
            } else if self.abs().gt(one) == y.gt(zero) {
                Float::from_bits(INFINITY_BITS)
            } else {
                zero
            };
        }
        let negative = self.bits >= SIGN_BIT;
        if self.abs().to_bits() == 0 || self.is_infinite() {
            let grows = (self.abs().to_bits() == 0) == y.lt(zero);
            let magnitude = if grows {
                INFINITY_BITS
            } else {
                ZERO_BITS
            };
            return if negative && y.is_odd() {
                Float::from_bits(magnitude + SIGN_BIT)
            } else {
                Float::from_bits(magnitude)
            };
        }
        if negative && !y.is_whole() {
            return Float::from_bits(NAN_BITS);
        }
        let wide = match ln_wide(self.abs().widen()) {
            Wide::Finite(l) => match mul_wide(l, y.widen()) {
                Wide::Finite(m) => exp_wide(m),
                other => other,
            },
            other => other,
        };
        let power = round_wide(wide).abs();
        if negative && y.is_odd() {
            power.neg()
        } else {
            power
        }
    }
}

} // verus!
