//! Arithmetic on binary64 bit patterns, and on wide numbers, by outside
//! crates.
//!
//! Nothing here is proved: each function hands its operands to a software
//! floating-point crate and the contract only names the result. Everything
//! the rest of the library states about sums, products, logarithms, texts
//! and the like is stated over these names.

use astro_float::{BigFloat, Consts, RoundingMode, Sign};
use vstd::prelude::*;

verus! {

/// Direction in which a number is rounded to a whole number.
#[derive(Clone, Copy, Debug, PartialEq, Eq, Structural)]
pub enum Rounding {
    /// Toward negative infinity.
    Down,
    /// Toward positive infinity.
    Up,
    /// To the nearest whole number, halves away from zero.
    Nearest,
}

/// A number with 128 bits of mantissa:
/// `(high * 2^64 + low) * 2^(exponent - 128)`, negated where `negative` is
/// set.
#[derive(Clone, Copy, Debug, PartialEq, Eq, Structural)]
pub struct WideNumber {
    pub high: u64,
    pub low: u64,
    pub exponent: i32,
    pub negative: bool,
}

/// The result of an operation on wide numbers.
#[derive(Clone, Copy, Debug, PartialEq, Eq, Structural)]
pub enum Wide {
    /// A number.
    Finite(WideNumber),
    /// An infinity.
    Infinite { negative: bool },
    /// Not a number.
    Nan,
}

/// The natural logarithm of a wide number, to 128 bits.
pub uninterp spec fn wide_logarithm(x: WideNumber) -> Wide;

/// The exponential of a wide number, to 128 bits.
pub uninterp spec fn wide_exponential(x: WideNumber) -> Wide;

/// The product of two wide numbers, to 128 bits.
pub uninterp spec fn wide_product(x: WideNumber, y: WideNumber) -> Wide;

/// Bits of the sum of the numbers with bits `a` and `b`, rounded to nearest,
/// ties to even.
pub uninterp spec fn sum_bits(a: u64, b: u64) -> u64;

/// Bits of the product of the numbers with bits `a` and `b`, rounded to
/// nearest, ties to even.
pub uninterp spec fn product_bits(a: u64, b: u64) -> u64;

/// Bits of the quotient of the number with bits `a` by the one with bits `b`,
/// rounded to nearest, ties to even.
pub uninterp spec fn quotient_bits(a: u64, b: u64) -> u64;

/// Bits of the number with bits `a` rounded to a whole number in the given
/// direction.
pub uninterp spec fn integral_bits(a: u64, toward: Rounding) -> u64;

/// Bits of the binary64 number nearest to the integer `n`.
pub uninterp spec fn integer_bits(n: u64) -> u64;

/// The number with bits `a` cut to an unsigned 64-bit integer.
pub uninterp spec fn truncated(a: u64) -> u64;

/// Bits of the square root of the number with bits `a`.
pub uninterp spec fn root_bits(a: u64) -> u64;

/// Bits of the sine of the number with bits `a`, taken in radians.
pub uninterp spec fn sine_bits(a: u64) -> u64;

/// Bits of the cosine of the number with bits `a`, taken in radians.
pub uninterp spec fn cosine_bits(a: u64) -> u64;

/// The decimal text of the number with bits `a` as the formatter writes it
/// for a width and a precision: rounded to `precision` significant digits,
/// and without an exponent where both are larger than the number of digits
/// that the number has before and after its decimal point.
pub uninterp spec fn decimal_text(a: u64, width: usize, precision: usize) -> Seq<char>;

/// Bits of the number that a decimal text stands for, rounded to nearest,
/// ties to even; `None` for a text that the parser does not take.
pub uninterp spec fn parsed_bits(text: Seq<char>) -> Option<u64>;

/// Calls `rustc_apfloat`'s `FromStr::from_str` for `ieee::Double` (that is
/// `from_str_r` with `Round::NearestTiesToEven`), drops the status flags, and
/// gives `None` for its error. The contract only says that the result is
/// determined by the text.
#[verifier::external_body]
pub(crate) fn bits_of_text(text: &str) -> (r: Option<u64>)
    ensures
        r == parsed_bits(text@),
{
    match text.parse::<rustc_apfloat::ieee::Double>() {
        Ok(x) => Some(rustc_apfloat::Float::to_bits(x) as u64),
        Err(_) => None,
    }
}

/// Calls `rustc_apfloat`'s `Display::fmt` for `ieee::Double` through
/// `format!`, handing on the width and the precision. The contract only says
/// that the text is determined by the operand bits, the width and the
/// precision.
///
/// A precision of 0 is left out: with it that function can discard every
/// digit and then fails its own assertion that some digit is left. With a
/// precision of at least 1 it keeps the leading digit. Width and precision
/// stay within 16 bits, which the formatter takes and which keeps that
/// function's arithmetic on the precision from overflowing.
#[verifier::external_body]
pub(crate) fn text_of_bits(a: u64, width: usize, precision: usize) -> (r: String)
    requires
        width <= 0xffff,
        1 <= precision <= 0xffff,
    ensures
        r@ == decimal_text(a, width, precision),
{
    let x: rustc_apfloat::ieee::Double = rustc_apfloat::Float::from_bits(a as u128);
    format!("{:1$.2$}", x, width, precision)
}

/// Calls `rustc_apfloat`'s `Add::add` on `ieee::Double` (that is `add_r` with
/// `Round::NearestTiesToEven`) and drops the status flags. The contract only
/// says that the result is determined by the operand bits.
#[verifier::external_body]
pub(crate) fn add_bits(a: u64, b: u64) -> (r: u64)
    ensures
        r == sum_bits(a, b),
{
    let x: rustc_apfloat::ieee::Double = rustc_apfloat::Float::from_bits(a as u128);
    let y: rustc_apfloat::ieee::Double = rustc_apfloat::Float::from_bits(b as u128);
    rustc_apfloat::Float::to_bits((x + y).value) as u64
}

/// Calls `rustc_apfloat`'s `Mul::mul` on `ieee::Double` (`mul_r` with
/// `Round::NearestTiesToEven`) and drops the status flags. The contract only
/// says that the result is determined by the operand bits.
#[verifier::external_body]
pub(crate) fn mul_bits(a: u64, b: u64) -> (r: u64)
    ensures
        r == product_bits(a, b),
{
    let x: rustc_apfloat::ieee::Double = rustc_apfloat::Float::from_bits(a as u128);
    let y: rustc_apfloat::ieee::Double = rustc_apfloat::Float::from_bits(b as u128);
    rustc_apfloat::Float::to_bits((x * y).value) as u64
}

/// Calls `rustc_apfloat`'s `Div::div` on `ieee::Double` (`div_r` with
/// `Round::NearestTiesToEven`) and drops the status flags; a zero divisor
/// gives an infinity or a NaN there and is no error. The contract only says
/// that the result is determined by the operand bits.
#[verifier::external_body]
pub(crate) fn div_bits(a: u64, b: u64) -> (r: u64)
    ensures
        r == quotient_bits(a, b),
{
    let x: rustc_apfloat::ieee::Double = rustc_apfloat::Float::from_bits(a as u128);
    let y: rustc_apfloat::ieee::Double = rustc_apfloat::Float::from_bits(b as u128);
    rustc_apfloat::Float::to_bits((x / y).value) as u64
}

/// Calls `rustc_apfloat`'s `Float::round_to_integral` on `ieee::Double` with
/// the rounding direction that `toward` stands for, and drops the status
/// flags. The contract only says that the result is determined by the operand
/// bits and the direction.
#[verifier::external_body]
pub(crate) fn round_bits(a: u64, toward: Rounding) -> (r: u64)
    ensures
        r == integral_bits(a, toward),
{
    let x: rustc_apfloat::ieee::Double = rustc_apfloat::Float::from_bits(a as u128);
    let round = match toward {
        Rounding::Down => rustc_apfloat::Round::TowardNegative,
        Rounding::Up => rustc_apfloat::Round::TowardPositive,
        Rounding::Nearest => rustc_apfloat::Round::NearestTiesToAway,
    };
    rustc_apfloat::Float::to_bits(rustc_apfloat::Float::round_to_integral(x, round).value) as u64
}

/// Calls `rustc_apfloat`'s `Float::from_u128` for `ieee::Double`, which
/// rounds to nearest, ties to even, and drops the status flags. The contract
/// only says that the result is determined by `n`.
#[verifier::external_body]
pub(crate) fn bits_of_integer(n: u64) -> (r: u64)
    ensures
        r == integer_bits(n),
{
    let x: rustc_apfloat::ieee::Double = rustc_apfloat::Float::from_u128(n as u128).value;
    rustc_apfloat::Float::to_bits(x) as u64
}

/// Calls `rustc_apfloat`'s `Float::to_u128` on `ieee::Double` with a width of
/// 64 bits: the fraction is cut off, a NaN gives 0, and a value out of range
/// gives the nearest bound. The contract only says that the result is
/// determined by the operand bits.
#[verifier::external_body]
pub(crate) fn truncate_bits(a: u64) -> (r: u64)
    ensures
        r == truncated(a),
{
    let x: rustc_apfloat::ieee::Double = rustc_apfloat::Float::from_bits(a as u128);
    rustc_apfloat::Float::to_u128(x, 64).value as u64
}

/// Calls `const_soft_float`'s `SoftF64::sqrt`. The contract only says that the
/// result is determined by the operand bits.
#[verifier::external_body]
pub(crate) fn sqrt_bits(a: u64) -> (r: u64)
    ensures
        r == root_bits(a),
{
    const_soft_float::soft_f64::SoftF64::from_bits(a).sqrt().to_bits()
}

/// Calls `const_soft_float`'s `SoftF64::sin`. The contract only says that the
/// result is determined by the operand bits.
#[verifier::external_body]
pub(crate) fn sin_bits(a: u64) -> (r: u64)
    ensures
        r == sine_bits(a),
{
    const_soft_float::soft_f64::SoftF64::from_bits(a).sin().to_bits()
}

/// Calls `const_soft_float`'s `SoftF64::cos`. The contract only says that the
/// result is determined by the operand bits.
#[verifier::external_body]
pub(crate) fn cos_bits(a: u64) -> (r: u64)
    ensures
        r == cosine_bits(a),
{
    const_soft_float::soft_f64::SoftF64::from_bits(a).cos().to_bits()
}

/// Calls `astro_float`'s `BigFloat::ln` on the number that
/// `BigFloat::from_words` makes of the argument, with 128 bits of precision
/// and `RoundingMode::ToEven`, and takes the result apart with
/// `as_raw_parts`. The contract only says that the result is determined by
/// the argument.
#[verifier::external_body]
pub(crate) fn ln_wide(x: WideNumber) -> (r: Wide)
    ensures
        r == wide_logarithm(x),
{
    let sign = if x.negative { Sign::Neg } else { Sign::Pos };
    let a = BigFloat::from_words(&[x.low, x.high], sign, x.exponent);
    let mut cache = Consts::new().unwrap();
    let y = a.ln(128, RoundingMode::ToEven, &mut cache);
    match y.as_raw_parts() {
        Some((m, _, s, e, _)) => Wide::Finite(WideNumber {
            high: m[1],
            low: m[0],
            exponent: e,
            negative: s == Sign::Neg,
        }),
        None if y.is_nan() => Wide::Nan,
        None => Wide::Infinite { negative: y.is_inf_neg() },
    }
}

/// Calls `astro_float`'s `BigFloat::exp` on the number that
/// `BigFloat::from_words` makes of the argument, with 128 bits of precision
/// and `RoundingMode::ToEven`, and takes the result apart with
/// `as_raw_parts`. The contract only says that the result is determined by
/// the argument.
#[verifier::external_body]
pub(crate) fn exp_wide(x: WideNumber) -> (r: Wide)
    ensures
        r == wide_exponential(x),
{
    let sign = if x.negative { Sign::Neg } else { Sign::Pos };
    let a = BigFloat::from_words(&[x.low, x.high], sign, x.exponent);
    let mut cache = Consts::new().unwrap();
    let y = a.exp(128, RoundingMode::ToEven, &mut cache);
    match y.as_raw_parts() {
        Some((m, _, s, e, _)) => Wide::Finite(WideNumber {
            high: m[1],
            low: m[0],
            exponent: e,
            negative: s == Sign::Neg,
        }),
        None if y.is_nan() => Wide::Nan,
        None => Wide::Infinite { negative: y.is_inf_neg() },
    }
}

/// Calls `astro_float`'s `BigFloat::mul` on the numbers that
/// `BigFloat::from_words` makes of the arguments, with 128 bits of precision
/// and `RoundingMode::ToEven`, and takes the result apart with
/// `as_raw_parts`. The contract only says that the result is determined by
/// the arguments.
#[verifier::external_body]
pub(crate) fn mul_wide(x: WideNumber, y: WideNumber) -> (r: Wide)
    ensures
        r == wide_product(x, y),
{
    let sx = if x.negative { Sign::Neg } else { Sign::Pos };
    let sy = if y.negative { Sign::Neg } else { Sign::Pos };
    let a = BigFloat::from_words(&[x.low, x.high], sx, x.exponent);
    let b = BigFloat::from_words(&[y.low, y.high], sy, y.exponent);
    let p = a.mul(&b, 128, RoundingMode::ToEven);
    match p.as_raw_parts() {
        Some((m, _, s, e, _)) => Wide::Finite(WideNumber {
            high: m[1],
            low: m[0],
            exponent: e,
            negative: s == Sign::Neg,
        }),
        None if p.is_nan() => Wide::Nan,
        None => Wide::Infinite { negative: p.is_inf_neg() },
    }
}

} // verus!
