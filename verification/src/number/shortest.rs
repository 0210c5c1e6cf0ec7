//! Numbers written with the fewest digits that tell them apart.
//!
//! The digits come from the exact decimal text of the number. They are
//! rounded to one significant digit, to two, and so on, until the text reads
//! back as the same number; seventeen digits always do.

use crate::number::float::{Float, INFINITY_BITS, SIGN_BIT};
use crate::number::format::{
    all_digits, check_plain, digits_text, find_point, increment, incremented, is_plain,
    lemma_incremented_adds_one, point_from, text_of_digits,
};
use crate::number::parse::{number_of, parse_number};
use vstd::prelude::*;
use vstd::string::StringExecFns;
use vstd::string::StringSliceAdditionalSpecFns;

verus! {

/// The most significant digits that are ever needed to tell two numbers
/// apart.
pub const MOST_DIGITS: usize = 17;

/// More bytes than the exact decimal text of any number has.
pub const LONGEST_TEXT: usize = 1400;

/// The digits of a plain decimal without its point.
pub open spec fn digits_of(b: Seq<u8>) -> Seq<u8> {
    let p = point_from(b, 0);
    Seq::new(
        (if p < b.len() {
            b.len() - 1
        } else {
            b.len() as int
        }) as nat,
        |i: int|
            if i < p {
                (b[i] - 48) as u8
            } else {
                (b[i + 1] - 48) as u8
            },
    )
}

/// The number of zeros from `from` on before the first other digit.
pub open spec fn zeros_from(d: Seq<u8>, from: int) -> int
    decreases d.len() - from,
{
    if from < 0 || from >= d.len() || d[from] != 0 {
        0
    } else {
        1 + zeros_from(d, from + 1)
    }
}

/// The significant digits of a plain decimal: its digits from the first one
/// that is not zero.
pub open spec fn significant(b: Seq<u8>) -> Seq<u8> {
    digits_of(b).skip(zeros_from(digits_of(b), 0))
}

/// The power of ten of a plain decimal: the number is `0.d` times ten to
/// this power, `d` being its significant digits.
pub open spec fn power_of_ten(b: Seq<u8>) -> int {
    point_from(b, 0) - zeros_from(digits_of(b), 0)
}

/// Whether a digit other than zero stands at `from` or later.
pub open spec fn has_digit_from(d: Seq<u8>, from: int) -> bool {
    exists|k: int| from <= k < d.len() && #[trigger] d[k] != 0
}

/// Whether cutting the digits after the first `p` rounds the rest up: what
/// is cut is more than half of the last digit kept, or exactly half and the
/// last digit kept is odd.
pub open spec fn cut_rounds_up(d: Seq<u8>, p: int) -> bool {
    if p < 1 || p >= d.len() {
        false
    } else if d[p] > 5 {
        true
    } else if d[p] < 5 {
        false
    } else {
        has_digit_from(d, p + 1) || d[p - 1] % 2 == 1
    }
}

/// The digits without the zeros at their end, of which one at least stays.
pub open spec fn without_trailing_zeros(d: Seq<u8>) -> Seq<u8>
    decreases d.len(),
{
    if d.len() > 1 && d.last() == 0 {
        without_trailing_zeros(d.drop_last())
    } else {
        d
    }
}

/// The first `p` digits, rounded, before the zeros at their end are taken
/// off. Rounding up a run of nines makes them one digit more.
pub open spec fn rounded_digits(d: Seq<u8>, p: int) -> Seq<u8> {
    if p >= d.len() {
        d
    } else if cut_rounds_up(d, p) {
        incremented(d.take(p))
    } else {
        d.take(p)
    }
}

/// `count` zeros.
pub open spec fn zeros(count: int) -> Seq<char> {
    Seq::new(
        (if count > 0 {
            count
        } else {
            0
        }) as nat,
        |i: int| '0',
    )
}

/// The text of the number `0.d` times ten to the power `e`, without an
/// exponent.
pub open spec fn plain_text(d: Seq<u8>, e: int) -> Seq<char> {
    if e <= 0 {
        seq!['0', '.'] + zeros(-e) + digits_text(d)
    } else if e >= d.len() {
        digits_text(d) + zeros(e - d.len())
    } else {
        digits_text(d.take(e)) + seq!['.'] + digits_text(d.skip(e))
    }
}

/// The text of a number rounded to `p` significant digits; `d` are its
/// significant digits and `e` is its power of ten.
pub open spec fn candidate(d: Seq<u8>, e: int, p: int) -> Seq<char> {
    let r = rounded_digits(d, p);
    let grown: int = if p < d.len() && r.len() > p {
        1
    } else {
        0
    };
    plain_text(without_trailing_zeros(r), e + grown)
}

/// Whether a text reads back as the number `x`.
pub open spec fn reads_as(text: Seq<char>, x: Float) -> bool {
    number_of(vstd::utf8::encode_utf8(text), text) == Some(x)
}

/// The first of the candidates with `p` digits or more that reads back as
/// `x`, and the one with all digits, or with seventeen, where none does
/// before.
pub open spec fn shortest_from(d: Seq<u8>, e: int, x: Float, p: int) -> Seq<char>
    decreases MOST_DIGITS - p,
{
    if p >= MOST_DIGITS || p >= d.len() || reads_as(candidate(d, e, p), x) {
        candidate(d, e, p)
    } else {
        shortest_from(d, e, x, p + 1)
    }
}

fn count_zeros(d: &Vec<u8>) -> (r: usize)
    ensures
        r == zeros_from(d@, 0),
        r <= d@.len(),
{
    let n = d.len();
    let mut i: usize = 0;
    while i < n && d[i] == 0
        invariant
            i <= n,
            n == d@.len(),
            zeros_from(d@, 0) == i + zeros_from(d@, i as int),
        decreases n - i,
    {
        i += 1;
    }
    i
}

fn digits_without_point(b: &Vec<u8>, p: usize) -> (d: Vec<u8>)
    requires
        is_plain(b@),
        p == point_from(b@, 0),
        p <= b@.len(),
    ensures
        d@ == digits_of(b@),
        all_digits(d@),
{
    let n = b.len();
    let mut d: Vec<u8> = Vec::new();
    let mut i: usize = 0;
    while i < n
        invariant
            i <= n,
            n == b@.len(),
            p <= n,
            is_plain(b@),
            p == point_from(b@, 0),
            d@.len() == if i <= p {
                i as int
            } else {
                i - 1
            },
            forall|k: int| 0 <= k < d@.len() ==> #[trigger] d@[k] == digits_of(b@)[k] && d@[k] <= 9,
        decreases n - i,
    {
        if i != p {
            assert(is_digit_at(b@, i as int));
            d.push(b[i] - 48);
        }
        i += 1;
    }
    assert(d@ =~= digits_of(b@));
    d
}

/// Whether the byte at `i` is a digit.
pub open spec fn is_digit_at(b: Seq<u8>, i: int) -> bool {
    48 <= b[i] <= 57
}

fn any_digit_from(d: &Vec<u8>, from: usize) -> (r: bool)
    ensures
        r == has_digit_from(d@, from as int),
{
    let n = d.len();
    let mut k: usize = from;
    while k < n
        invariant
            from <= k,
            n == d@.len(),
            forall|j: int| from <= j < k && j < n ==> #[trigger] d@[j] == 0,
        decreases n - k,
    {
        if d[k] != 0 {
            return true;
        }
        k += 1;
    }
    false
}

fn round_digits(d: &Vec<u8>, p: usize) -> (r: Vec<u8>)
    requires
        all_digits(d@),
        p >= 1,
    ensures
        r@ == rounded_digits(d@, p as int),
        all_digits(r@),
        r@.len() >= 1 || d@.len() == 0,
        p < d@.len() ==> p <= r@.len() <= p + 1,
{
    let n = d.len();
    let mut r: Vec<u8> = Vec::new();
    if p >= n {
        let mut i: usize = 0;
        while i < n
            invariant
                i <= n,
                n == d@.len(),
                r@ == d@.take(i as int),
            decreases n - i,
        {
            r.push(d[i]);
            assert(d@.take(i + 1) =~= d@.take(i as int).push(d@[i as int]));
            i += 1;
        }
        assert(d@.take(n as int) =~= d@);
        return r;
    }
    let mut i: usize = 0;
    while i < p
        invariant
            i <= p < n,
            n == d@.len(),
            r@ == d@.take(i as int),
        decreases p - i,
    {
        r.push(d[i]);
        assert(d@.take(i + 1) =~= d@.take(i as int).push(d@[i as int]));
        i += 1;
    }
    assert forall|k: int| 0 <= k < r@.len() implies #[trigger] r@[k] <= 9 by {
        assert(r@[k] == d@[k]);
    }
    let up = if d[p] > 5 {
        true
    } else if d[p] < 5 {
        false
    } else {
        any_digit_from(d, p + 1) || d[p - 1] % 2 == 1
    };
    if up {
        proof {
            lemma_incremented_adds_one(r@);
        }
        increment(&mut r);
    }
    r
}

fn strip_zeros(d: &mut Vec<u8>)
    ensures
        final(d)@ == without_trailing_zeros(old(d)@),
        final(d)@.len() >= 1 || old(d)@.len() == 0,
        final(d)@.len() <= old(d)@.len(),
        all_digits(old(d)@) ==> all_digits(final(d)@),
{
    let ghost start = d@;
    while d.len() > 1 && d[d.len() - 1] == 0
        invariant
            without_trailing_zeros(start) == without_trailing_zeros(d@),
            d@.len() <= start.len(),
            d@.len() >= 1 || start.len() == 0,
            forall|k: int| 0 <= k < d@.len() ==> d@[k] == start[k],
        decreases d@.len(),
    {
        let ghost before = d@;
        d.pop();
        assert(d@ =~= before.drop_last());
    }
    assert forall|k: int| 0 <= k < d@.len() && all_digits(start) implies #[trigger] d@[k] <= 9 by {
        assert(d@[k] == start[k]);
    }
}

fn append_zeros(out: &mut String, count: usize)
    ensures
        final(out)@ == old(out)@ + zeros(count as int),
{
    let ghost start = out@;
    let mut i: usize = 0;
    proof {
        reveal_strlit("0");
        assert(start + zeros(0) =~= start);
    }
    while i < count
        invariant
            i <= count,
            out@ == start + zeros(i as int),
        decreases count - i,
    {
        proof {
            reveal_strlit("0");
        }
        out.append("0");
        assert(start + zeros(i as int) + seq!['0'] =~= start + zeros(i + 1));
        i += 1;
    }
}

/// The text of `0.d` times ten to the power `e`.
fn write_plain(d: &Vec<u8>, e: i64) -> (r: String)
    requires
        all_digits(d@),
        -2000 <= e <= 2000,
    ensures
        r@ == plain_text(d@, e as int),
{
    proof {
        reveal_strlit("0.");
        reveal_strlit(".");
        reveal_strlit("");
    }
    let n = d.len();
    if e <= 0 {
        let mut out = "0.".to_owned();
        append_zeros(&mut out, (-e) as usize);
        text_of_digits(d, 0, n, &mut out);
        assert(d@.subrange(0, n as int) =~= d@);
        assert(out@ =~= plain_text(d@, e as int));
        out
    } else if e as usize >= n {
        let mut out = "".to_owned();
        text_of_digits(d, 0, n, &mut out);
        assert(d@.subrange(0, n as int) =~= d@);
        append_zeros(&mut out, e as usize - n);
        assert(out@ =~= plain_text(d@, e as int));
        out
    } else {
        let mut out = "".to_owned();
        let cut = e as usize;
        text_of_digits(d, 0, cut, &mut out);
        out.append(".");
        text_of_digits(d, cut, n, &mut out);
        assert(d@.subrange(0, cut as int) =~= d@.take(cut as int));
        assert(d@.subrange(cut as int, n as int) =~= d@.skip(cut as int));
        assert(out@ =~= plain_text(d@, e as int));
        out
    }
}

fn write_candidate(d: &Vec<u8>, e: i64, p: usize) -> (r: String)
    requires
        all_digits(d@),
        p >= 1,
        -1500 <= e <= 1500,
    ensures
        r@ == candidate(d@, e as int, p as int),
{
    let mut digits = round_digits(d, p);
    let grown: i64 = if p < d.len() && digits.len() > p {
        1
    } else {
        0
    };
    strip_zeros(&mut digits);
    write_plain(&digits, e + grown)
}

fn shortest(digits: &Vec<u8>, e: i64, x: Float) -> (r: String)
    requires
        all_digits(digits@),
        -1400 <= e <= 1400,
    ensures
        r@ == shortest_from(digits@, e as int, x, 1),
{
    let mut p: usize = 1;
    while p < MOST_DIGITS
        invariant
            1 <= p <= MOST_DIGITS,
            all_digits(digits@),
            -1400 <= e <= 1400,
            shortest_from(digits@, e as int, x, 1) == shortest_from(digits@, e as int, x, p as int),
        decreases MOST_DIGITS - p,
    {
        let text = write_candidate(digits, e, p);
        let reads_back = match parse_number(text.as_str()) {
            Some(v) => v.to_bits() == x.to_bits(),
            None => false,
        };
        if p >= digits.len() || reads_back {
            return text;
        }
        p += 1;
    }
    write_candidate(digits, e, p)
}

impl Float {
    /// The text of `self`: `NaN` for a NaN, `inf` or `-inf` for an infinity,
    /// and otherwise a minus sign where the sign bit is set and the
    /// magnitude in decimal, without an exponent, with the fewest digits
    /// that read back as the same number. Whole numbers come without a
    /// decimal point.
    pub open spec fn spec_to_text(self) -> Seq<char> {
        if self.spec_is_nan() {
            "NaN"@
        } else if self.spec_is_infinite() {
            if self.sign() {
                "-inf"@
            } else {
                "inf"@
            }
        } else {
            let exact = self.spec_abs().spec_to_exact_text();
            let bytes = vstd::utf8::encode_utf8(exact);
            let body = if self.magnitude() == 0 {
                seq!['0']
            } else if is_plain(bytes) && bytes.len() <= LONGEST_TEXT && significant(bytes).len() > 0 {
                shortest_from(significant(bytes), power_of_ten(bytes), self.spec_abs(), 1)
            } else {
                exact
            };
            if self.sign() {
                seq!['-'] + body
            } else {
                body
            }
        }
    }

    /// `self` written in decimal with the fewest digits that tell it apart
    /// from every other number, as `0.1` or `1704067200`.
    pub fn to_text(self) -> (r: String)
        ensures
            r@ == self.spec_to_text(),
    {
        if self.is_nan() {
            return "NaN".to_owned();
        }
        let negative = self.bits >= SIGN_BIT;
        if self.is_infinite() {
            return if negative {
                "-inf".to_owned()
            } else {
                "inf".to_owned()
            };
        }
        proof {
            reveal_strlit("-");
            reveal_strlit("");
            reveal_strlit("0");
        }
        let mut out = if negative {
            "-".to_owned()
        } else {
            "".to_owned()
        };
        let magnitude = self.abs();
        if magnitude.to_bits() == 0 {
            out.append("0");
            assert(out@ =~= self.spec_to_text());
            return out;
        }
        let exact = magnitude.to_exact_text();
        let bytes = exact.as_str().as_bytes_vec();
        let point = find_point(&bytes);
        if !check_plain(&bytes, point) || bytes.len() > LONGEST_TEXT {
            out.append(exact.as_str());
            assert(out@ =~= self.spec_to_text());
            return out;
        }
        let all = digits_without_point(&bytes, point);
        let zeros = count_zeros(&all);
        let mut digits: Vec<u8> = Vec::new();
        let mut i: usize = zeros;
        while i < all.len()
            invariant
                zeros <= i <= all@.len(),
                digits@ == all@.subrange(zeros as int, i as int),
            decreases all@.len() - i,
        {
            digits.push(all[i]);
            assert(all@.subrange(zeros as int, i + 1) =~= all@.subrange(zeros as int, i as int).push(
                all@[i as int],
            ));
            i += 1;
        }
        assert(digits@ =~= significant(bytes@));
        assert forall|k: int| 0 <= k < digits@.len() implies #[trigger] digits@[k] <= 9 by {
            assert(digits@[k] == all@[zeros + k]);
        }
        if digits.len() == 0 {
            out.append(exact.as_str());
            assert(out@ =~= self.spec_to_text());
            return out;
        }
        let e: i64 = point as i64 - zeros as i64;
        out.append(shortest(&digits, e, magnitude).as_str());
        assert(out@ =~= self.spec_to_text());
        out
    }
}

} // verus!
