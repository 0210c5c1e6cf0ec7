//! Reading decimal text as a number.
//!
//! Which texts are numbers is decided here, on the bytes: an optional sign,
//! then `inf`, `infinity` or `nan` in any case, or digits with an optional
//! decimal point and an optional exponent. The value of a decimal comes from
//! the trusted parser.

use crate::number::arith::{bits_of_text, parsed_bits};
use crate::number::float::{Float, INFINITY_BITS, SIGN_BIT};
use vstd::prelude::*;
use vstd::string::StringSliceAdditionalSpecFns;

verus! {

/// Bit pattern of the NaN that the text `nan` stands for.
pub const TEXT_NAN_BITS: u64 = 0x7ff8_0000_0000_0000;

/// Whether a byte is an ASCII digit.
pub open spec fn is_digit_byte(b: u8) -> bool {
    48 <= b <= 57
}

/// Whether a byte is a plus or a minus sign.
pub open spec fn is_sign_byte(b: u8) -> bool {
    b == 43 || b == 45
}

/// The index of the first byte from `from` on that is not a digit, or the
/// length of the text where all are.
pub open spec fn digits_end(b: Seq<u8>, from: int) -> int
    decreases b.len() - from,
{
    if from < 0 || from >= b.len() || !is_digit_byte(b[from]) {
        from
    } else {
        digits_end(b, from + 1)
    }
}

/// A byte in lower case, as far as ASCII letters go.
pub open spec fn lower(b: u8) -> u8 {
    if 65 <= b <= 90 {
        (b + 32) as u8
    } else {
        b
    }
}

/// Whether the bytes from `from` on are exactly `word`, in any case.
pub open spec fn is_word(b: Seq<u8>, from: int, word: Seq<u8>) -> bool {
    &&& b.len() - from == word.len()
    &&& forall|i: int| 0 <= i < word.len() ==> lower(#[trigger] b[from + i]) == word[i]
}

/// The bytes of `inf`.
pub open spec fn word_inf() -> Seq<u8> {
    seq![105u8, 110u8, 102u8]
}

/// The bytes of `infinity`.
pub open spec fn word_infinity() -> Seq<u8> {
    seq![105u8, 110u8, 102u8, 105u8, 110u8, 105u8, 116u8, 121u8]
}

/// The bytes of `nan`.
pub open spec fn word_nan() -> Seq<u8> {
    seq![110u8, 97u8, 110u8]
}

/// Where the text proper starts: after a sign, if there is one.
pub open spec fn after_sign(b: Seq<u8>) -> int {
    if b.len() > 0 && is_sign_byte(b[0]) {
        1
    } else {
        0
    }
}

/// Whether the text starts with a minus sign.
pub open spec fn is_negated(b: Seq<u8>) -> bool {
    b.len() > 0 && b[0] == 45
}

/// The bits of the infinity or the NaN that the text names, if it names
/// one.
pub open spec fn named_value(b: Seq<u8>) -> Option<u64> {
    let s = after_sign(b);
    let sign: u64 = if is_negated(b) {
        SIGN_BIT
    } else {
        0
    };
    if is_word(b, s, word_inf()) || is_word(b, s, word_infinity()) {
        Some((INFINITY_BITS + sign) as u64)
    } else if is_word(b, s, word_nan()) {
        Some((TEXT_NAN_BITS + sign) as u64)
    } else {
        None
    }
}

/// Whether the text is a decimal: an optional sign, digits with an optional
/// decimal point among them, at least one digit in all, and an optional
/// exponent of `e` or `E`, an optional sign and at least one digit.
pub open spec fn is_decimal(b: Seq<u8>) -> bool {
    let s = after_sign(b);
    let whole_end = digits_end(b, s);
    let fraction_end = if whole_end < b.len() && b[whole_end] == 46 {
        digits_end(b, whole_end + 1)
    } else {
        whole_end
    };
    let digits = if fraction_end > whole_end {
        fraction_end - s - 1
    } else {
        whole_end - s
    };
    &&& digits > 0
    &&& fraction_end == b.len() || {
        &&& b[fraction_end] == 101 || b[fraction_end] == 69
        &&& {
            let e = if fraction_end + 1 < b.len() && is_sign_byte(b[fraction_end + 1]) {
                fraction_end + 2
            } else {
                fraction_end + 1
            };
            e < b.len() && digits_end(b, e) == b.len()
        }
    }
}

/// The number that a text of the given bytes and characters stands for, if
/// it stands for one.
pub open spec fn number_of(bytes: Seq<u8>, chars: Seq<char>) -> Option<Float> {
    match named_value(bytes) {
        Some(bits) => Some(Float::from_bits(bits)),
        None => if is_decimal(bytes) {
            match parsed_bits(chars) {
                Some(bits) => Some(Float::from_bits(bits)),
                None => None,
            }
        } else {
            None
        },
    }
}

/// The number that a text stands for, if it stands for one.
pub open spec fn number_of_text(text: &str) -> Option<Float> {
    number_of(text.spec_bytes(), text@)
}

fn skip_digits(b: &[u8], from: usize) -> (r: usize)
    requires
        from <= b@.len(),
    ensures
        r == digits_end(b@, from as int),
        from <= r <= b@.len(),
{
    let n = b.len();
    let mut i: usize = from;
    while i < n && 48 <= b[i] && b[i] <= 57
        invariant
            n == b@.len(),
            from <= i <= n,
            digits_end(b@, from as int) == digits_end(b@, i as int),
        decreases n - i,
    {
        i += 1;
    }
    i
}

fn lower_byte(b: u8) -> (r: u8)
    ensures
        r == lower(b),
{
    if 65 <= b && b <= 90 {
        b + 32
    } else {
        b
    }
}

fn matches_word(b: &[u8], from: usize, word: &[u8]) -> (r: bool)
    requires
        from <= b@.len(),
    ensures
        r == is_word(b@, from as int, word@),
{
    let n = b.len();
    let m = word.len();
    if n - from != m {
        return false;
    }
    let mut i: usize = 0;
    while i < m
        invariant
            i <= m,
            m == word@.len(),
            n == b@.len(),
            n - from == m,
            forall|k: int| 0 <= k < i ==> lower(#[trigger] b@[from + k]) == word@[k],
        decreases m - i,
    {
        if lower_byte(b[from + i]) != word[i] {
            return false;
        }
        i += 1;
    }
    true
}

fn check_decimal(b: &[u8]) -> (r: bool)
    ensures
        r == is_decimal(b@),
{
    let n = b.len();
    let s: usize = if n > 0 && (b[0] == 43 || b[0] == 45) {
        1
    } else {
        0
    };
    let whole_end = skip_digits(b, s);
    let fraction_end = if whole_end < n && b[whole_end] == 46 {
        skip_digits(b, whole_end + 1)
    } else {
        whole_end
    };
    let digits = if fraction_end > whole_end {
        fraction_end - s - 1
    } else {
        whole_end - s
    };
    if digits == 0 {
        return false;
    }
    if fraction_end == n {
        return true;
    }
    if !(b[fraction_end] == 101 || b[fraction_end] == 69) {
        return false;
    }
    let e = if n - fraction_end > 1 && (b[fraction_end + 1] == 43 || b[fraction_end + 1] == 45) {
        fraction_end + 2
    } else {
        fraction_end + 1
    };
    e < n && skip_digits(b, e) == n
}

/// The number that `text` stands for, if it stands for one.
///
/// A text is a number if it is an optional sign followed by `inf`,
/// `infinity` or `nan` in any case, or by digits with an optional decimal
/// point and an optional exponent. Nothing may stand before or after.
pub fn parse_number(text: &str) -> (r: Option<Float>)
    ensures
        r == number_of_text(text),
{
    let b = text.as_bytes();
    let n = b.len();
    let s: usize = if n > 0 && (b[0] == 43 || b[0] == 45) {
        1
    } else {
        0
    };
    let sign: u64 = if n > 0 && b[0] == 45 {
        SIGN_BIT
    } else {
        0
    };
    let inf: [u8; 3] = [105, 110, 102];
    let infinity: [u8; 8] = [105, 110, 102, 105, 110, 105, 116, 121];
    let nan: [u8; 3] = [110, 97, 110];
    assert(inf@ =~= word_inf());
    assert(infinity@ =~= word_infinity());
    assert(nan@ =~= word_nan());
    if matches_word(b, s, inf.as_slice()) || matches_word(b, s, infinity.as_slice()) {
        return Some(Float::from_bits(INFINITY_BITS + sign));
    }
    if matches_word(b, s, nan.as_slice()) {
        return Some(Float::from_bits(TEXT_NAN_BITS + sign));
    }
    if !check_decimal(b) {
        return None;
    }
    match bits_of_text(text) {
        Some(bits) => Some(Float::from_bits(bits)),
        None => None,
    }
}

} // verus!
