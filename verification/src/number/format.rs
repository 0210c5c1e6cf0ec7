//! Numbers written with two decimals.
//!
//! The digits come from the exact decimal text of the number; cutting it to
//! two decimals, and rounding the last of them, is done here on the digits.

use crate::number::float::{Float, INFINITY_BITS, SIGN_BIT};
use crate::number::text::{digit_char, digit_str};
use vstd::prelude::*;
use vstd::string::StringExecFns;

verus! {

/// Whether a byte is an ASCII digit.
pub open spec fn is_digit(b: u8) -> bool {
    48 <= b <= 57
}

/// The index of the first decimal point from `from` on, or the length of the
/// text where there is none.
pub open spec fn point_from(b: Seq<u8>, from: int) -> int
    decreases b.len() - from,
{
    if from >= b.len() {
        b.len() as int
    } else if b[from] == 46 {
        from
    } else {
        point_from(b, from + 1)
    }
}

/// Whether the text is a plain decimal: digits, at least one of them before
/// a decimal point if there is one, and no other character.
pub open spec fn is_plain(b: Seq<u8>) -> bool {
    &&& point_from(b, 0) >= 1
    &&& forall|i: int| 0 <= i < b.len() && i != point_from(b, 0) ==> is_digit(#[trigger] b[i])
}

/// The digits of a plain decimal down to the hundredths: the digits before
/// the point and the two after it, zeros standing for missing ones.
pub open spec fn scaled(b: Seq<u8>) -> Seq<u8> {
    let p = point_from(b, 0);
    Seq::new(
        (p + 2) as nat,
        |i: int|
            if i < p {
                (b[i] - 48) as u8
            } else if i + 1 < b.len() {
                (b[i + 1] - 48) as u8
            } else {
                0u8
            },
    )
}

/// Whether a digit other than zero stands at `from` or later.
pub open spec fn has_nonzero_from(b: Seq<u8>, from: int) -> bool {
    exists|k: int| from <= k < b.len() && #[trigger] b[k] != 48
}

/// Whether what follows the hundredths rounds them up: it is more than half
/// of one, or exactly half and the last digit kept is odd.
pub open spec fn rounds_up(b: Seq<u8>) -> bool {
    let r = point_from(b, 0) + 3;
    if r >= b.len() {
        false
    } else if b[r] > 53 {
        true
    } else if b[r] < 53 {
        false
    } else {
        has_nonzero_from(b, r + 1) || scaled(b).last() % 2 == 1
    }
}

/// The digits of the number after the one that `d` writes.
pub open spec fn incremented(d: Seq<u8>) -> Seq<u8>
    decreases d.len(),
{
    if d.len() == 0 {
        seq![1u8]
    } else if d.last() < 9 {
        d.drop_last().push((d.last() + 1) as u8)
    } else {
        incremented(d.drop_last()).push(0u8)
    }
}

/// The digits of a plain decimal in hundredths, rounded to the nearest, a
/// half to the even neighbour.
pub open spec fn hundredths(b: Seq<u8>) -> Seq<u8> {
    if rounds_up(b) {
        incremented(scaled(b))
    } else {
        scaled(b)
    }
}

/// The number that the digits `d` write.
pub open spec fn digits_value(d: Seq<u8>) -> nat
    decreases d.len(),
{
    if d.len() == 0 {
        0
    } else {
        10 * digits_value(d.drop_last()) + d.last() as nat
    }
}

/// Whether every element of `d` is a digit value.
pub open spec fn all_digits(d: Seq<u8>) -> bool {
    forall|i: int| 0 <= i < d.len() ==> #[trigger] d[i] <= 9
}

/// Incrementing digits adds one to the number they write.
pub proof fn lemma_incremented_adds_one(d: Seq<u8>)
    requires
        all_digits(d),
    ensures
        all_digits(incremented(d)),
        digits_value(incremented(d)) == digits_value(d) + 1,
        d.len() <= incremented(d).len() <= d.len() + 1,
    decreases d.len(),
{
    if d.len() == 0 {
        assert(seq![1u8].drop_last() =~= Seq::<u8>::empty());
        assert(digits_value(seq![1u8]) == 10 * digits_value(Seq::<u8>::empty()) + 1);
    } else if d.last() < 9 {
        let r = d.drop_last().push((d.last() + 1) as u8);
        assert(r.drop_last() =~= d.drop_last());
        assert forall|i: int| 0 <= i < r.len() implies #[trigger] r[i] <= 9 by {
            if i < d.len() - 1 {
                assert(r[i] == d[i]);
            }
        }
    } else {
        let front = d.drop_last();
        assert forall|i: int| 0 <= i < front.len() implies #[trigger] front[i] <= 9 by {
            assert(front[i] == d[i]);
        }
        lemma_incremented_adds_one(front);
        let r = incremented(front).push(0u8);
        assert(r.drop_last() =~= incremented(front));
        assert forall|i: int| 0 <= i < r.len() implies #[trigger] r[i] <= 9 by {
            if i < r.len() - 1 {
                assert(r[i] == incremented(front)[i]);
            }
        }
    }
}

/// The characters of digits.
pub open spec fn digits_text(d: Seq<u8>) -> Seq<char> {
    d.map_values(|v: u8| digit_char(v as int))
}

/// The text of a number given in hundredths: its digits with a decimal point
/// before the last two.
pub open spec fn with_point(h: Seq<u8>) -> Seq<char> {
    digits_text(h.take(h.len() - 2)) + seq!['.'] + digits_text(h.skip(h.len() - 2))
}

/// A plain decimal cut to two decimals and rounded.
pub open spec fn fixed_text(b: Seq<u8>) -> Seq<char> {
    with_point(hundredths(b))
}

pub(crate) fn find_point(b: &Vec<u8>) -> (p: usize)
    ensures
        p == point_from(b@, 0),
        p <= b@.len(),
{
    let n = b.len();
    let mut p: usize = 0;
    while p < n && b[p] != 46
        invariant
            p <= n,
            n == b@.len(),
            point_from(b@, 0) == point_from(b@, p as int),
        decreases n - p,
    {
        p += 1;
    }
    p
}

pub(crate) fn check_plain(b: &Vec<u8>, p: usize) -> (r: bool)
    requires
        p == point_from(b@, 0),
    ensures
        r == is_plain(b@),
{
    if p < 1 {
        return false;
    }
    let n = b.len();
    let mut i: usize = 0;
    while i < n
        invariant
            i <= n,
            n == b@.len(),
            p == point_from(b@, 0),
            p >= 1,
            forall|k: int| 0 <= k < i && k != p ==> is_digit(#[trigger] b@[k]),
        decreases n - i,
    {
        if i != p && !(48 <= b[i] && b[i] <= 57) {
            return false;
        }
        i += 1;
    }
    true
}

fn scaled_digits(b: &Vec<u8>, p: usize) -> (d: Vec<u8>)
    requires
        is_plain(b@),
        p == point_from(b@, 0),
        p <= b@.len(),
    ensures
        d@ == scaled(b@),
        all_digits(d@),
        d@.len() == p + 2,
{
    let n = b.len();
    let mut d: Vec<u8> = Vec::new();
    let mut i: usize = 0;
    while i < p
        invariant
            i <= p <= n,
            n == b@.len(),
            is_plain(b@),
            p == point_from(b@, 0),
            d@.len() == i,
            forall|k: int| 0 <= k < i ==> #[trigger] d@[k] == scaled(b@)[k] && d@[k] <= 9,
        decreases p - i,
    {
        assert(is_digit(b@[i as int]));
        d.push(b[i] - 48);
        i += 1;
    }
    let first: u8 = if n - p > 1 {
        assert(is_digit(b@[p + 1]));
        b[p + 1] - 48
    } else {
        0
    };
    d.push(first);
    let second: u8 = if n - p > 2 {
        assert(is_digit(b@[p + 2]));
        b[p + 2] - 48
    } else {
        0
    };
    d.push(second);
    assert(d@ =~= scaled(b@));
    d
}

fn any_nonzero_from(b: &Vec<u8>, from: usize) -> (r: bool)
    ensures
        r == has_nonzero_from(b@, from as int),
{
    let n = b.len();
    let mut k: usize = from;
    while k < n
        invariant
            from <= k,
            n == b@.len(),
            forall|j: int| from <= j < k && j < n ==> #[trigger] b@[j] == 48,
        decreases n - k,
    {
        if b[k] != 48 {
            return true;
        }
        k += 1;
    }
    false
}

pub(crate) fn increment(d: &mut Vec<u8>)
    requires
        all_digits(old(d)@),
    ensures
        final(d)@ == incremented(old(d)@),
{
    let ghost start = d@;
    let n = d.len();
    let mut i: usize = n;
    assert(start.take(n as int) =~= start);
    assert(start.take(n as int) + Seq::<u8>::empty() =~= start);
    assert(incremented(start) + Seq::<u8>::empty() =~= incremented(start));
    while i > 0 && d[i - 1] == 9
        invariant
            i <= n,
            n == start.len(),
            n == d@.len(),
            all_digits(start),
            forall|k: int| 0 <= k < i ==> d@[k] == start[k],
            forall|k: int| i <= k < n ==> d@[k] == 0,
            incremented(start) == incremented(start.take(i as int)) + d@.skip(i as int),
        decreases i,
    {
        d.set(i - 1, 0);
        proof {
            let head = start.take(i as int);
            assert(head.last() == 9);
            assert(head.drop_last() =~= start.take(i - 1));
            assert(incremented(start.take(i - 1)).push(0u8) + d@.skip(i as int) =~= incremented(
                start.take(i - 1),
            ) + d@.skip(i - 1));
        }
        i -= 1;
    }
    if i == 0 {
        d.insert(0, 1);
        proof {
            assert(incremented(start.take(0)) =~= seq![1u8]);
        }
        assert(d@ =~= incremented(start));
    } else {
        let next = d[i - 1] + 1;
        let ghost tail = d@.skip(i as int);
        d.set(i - 1, next);
        proof {
            let head = start.take(i as int);
            assert(head.last() == start[i - 1]);
            assert(incremented(head) == head.drop_last().push((head.last() + 1) as u8));
            assert(d@ =~= head.drop_last().push(next) + tail);
        }
    }
}

/// The text of digits.
pub(crate) fn text_of_digits(d: &Vec<u8>, from: usize, to: usize, out: &mut String)
    requires
        from <= to <= d@.len(),
        all_digits(d@),
    ensures
        final(out)@ == old(out)@ + digits_text(d@.subrange(from as int, to as int)),
{
    let ghost start = out@;
    let mut i: usize = from;
    assert(digits_text(d@.subrange(from as int, from as int)) =~= Seq::<char>::empty());
    assert(start + Seq::<char>::empty() =~= start);
    while i < to
        invariant
            from <= i <= to <= d@.len(),
            all_digits(d@),
            out@ == start + digits_text(d@.subrange(from as int, i as int)),
        decreases to - i,
    {
        out.append(digit_str(d[i] as usize));
        proof {
            let before = d@.subrange(from as int, i as int);
            let now = d@.subrange(from as int, i + 1);
            assert(now =~= before.push(d@[i as int]));
            assert(digits_text(now) =~= digits_text(before).push(digit_char(d@[i as int] as int)));
            assert(start + digits_text(before) + seq![digit_char(d@[i as int] as int)] =~= start
                + digits_text(now));
        }
        i += 1;
    }
}

impl Float {
    /// Whether `self` is positive or negative infinity.
    pub open spec fn spec_is_infinite(self) -> bool {
        self.magnitude() == INFINITY_BITS
    }

    /// Whether `self` is positive or negative infinity.
    #[verifier::when_used_as_spec(spec_is_infinite)]
    pub fn is_infinite(self) -> (r: bool)
        ensures
            r == self.spec_is_infinite(),
    {
        self.abs().to_bits() == INFINITY_BITS
    }

    /// `self` with two decimals: `NaN` for a NaN, `inf` or `-inf` for an
    /// infinity, and otherwise a minus sign where the sign bit is set and the
    /// exact decimal text of the magnitude cut to two decimals and rounded,
    /// a half to the even neighbour.
    pub open spec fn spec_to_fixed(self) -> Seq<char> {
        if self.spec_is_nan() {
            "NaN"@
        } else if self.spec_is_infinite() {
            if self.sign() {
                "-inf"@
            } else {
                "inf"@
            }
        } else {
            let text = self.spec_abs().spec_to_exact_text();
            let bytes = vstd::utf8::encode_utf8(text);
            let body = if is_plain(bytes) {
                fixed_text(bytes)
            } else {
                text
            };
            if self.sign() {
                seq!['-'] + body
            } else {
                body
            }
        }
    }

    /// `self` written with two decimals, as `3.14`.
    pub fn to_fixed(self) -> (r: String)
        ensures
            r@ == self.spec_to_fixed(),
    {
        if self.is_nan() {
            return "NaN".to_owned();
        }
        let negative = self.bits >= SIGN_BIT;
        if self.is_infinite() {
            return if negative {
                "-inf".to_owned()
            } else {
                "inf".to_owned()
            };
        }
        let text = self.abs().to_exact_text();
        let bytes = text.as_str().as_bytes_vec();
        let p = find_point(&bytes);
        proof {
            reveal_strlit("-");
            reveal_strlit("");
            reveal_strlit(".");
        }
        let mut out = if negative {
            "-".to_owned()
        } else {
            "".to_owned()
        };
        if !check_plain(&bytes, p) {
            out.append(text.as_str());
            assert(out@ =~= self.spec_to_fixed());
            return out;
        }
        let mut digits = scaled_digits(&bytes, p);
        let up = if bytes.len() - p <= 3 {
            false
        } else if bytes[p + 3] > 53 {
            true
        } else if bytes[p + 3] < 53 {
            false
        } else {
            any_nonzero_from(&bytes, p + 4) || digits[digits.len() - 1] % 2 == 1
        };
        if up {
            proof {
                lemma_incremented_adds_one(digits@);
            }
            increment(&mut digits);
        }
        assert(digits@ == hundredths(bytes@));
        let n = digits.len();
        let ghost sign_text = out@;
        text_of_digits(&digits, 0, n - 2, &mut out);
        out.append(".");
        text_of_digits(&digits, n - 2, n, &mut out);
        proof {
            assert(digits@.subrange(0, n - 2) =~= digits@.take(n - 2));
            assert(digits@.subrange(n - 2, n as int) =~= digits@.skip(n - 2));
            assert(out@ =~= sign_text + with_point(digits@));
            assert(out@ =~= self.spec_to_fixed());
        }
        out
    }
}

} // verus!
