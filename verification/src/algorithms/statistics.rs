//! Descriptive statistics, quartiles, histogram binning, moving averages and
//! least-squares regression.

use crate::algorithms::sorting::{ascending, sort_ascending};
use crate::number::float::{
    Float, EPSILON_BITS, HALF_BITS, PI_BITS, ONE_AND_HALF_BITS, ONE_BITS, QUARTER_BITS, THREE_QUARTERS_BITS, TWO_BITS,
    ZERO_BITS,
};
use vstd::prelude::*;
use vstd::slice::slice_to_vec;

verus! {

/// The sum of `data`, added up from zero in sequence order.
pub open spec fn total(data: Seq<Float>) -> Float
    decreases data.len(),
{
    if data.len() == 0 {
        Float::from_bits(ZERO_BITS)
    } else {
        total(data.drop_last()).spec_add(data.last())
    }
}

/// The first element of `data` that no later element is less than, found by
/// keeping the smaller of the running minimum and each next element.
pub open spec fn low(data: Seq<Float>) -> Float
    recommends
        data.len() > 0,
    decreases data.len(),
{
    if data.len() <= 1 {
        data[0]
    } else if data.last().spec_lt(low(data.drop_last())) {
        data.last()
    } else {
        low(data.drop_last())
    }
}

/// The counterpart of [`low`] for the maximum.
pub open spec fn high(data: Seq<Float>) -> Float
    recommends
        data.len() > 0,
    decreases data.len(),
{
    if data.len() <= 1 {
        data[0]
    } else if data.last().spec_gt(high(data.drop_last())) {
        data.last()
    } else {
        high(data.drop_last())
    }
}

/// `low(data)` is an element of `data`, and no element is less than it.
pub proof fn lemma_low_is_least(data: Seq<Float>)
    requires
        data.len() > 0,
    ensures
        data.contains(low(data)),
        forall|i: int| 0 <= i < data.len() ==> !(#[trigger] data[i]).spec_lt(low(data)),
    decreases data.len(),
{
    if data.len() > 1 {
        let front = data.drop_last();
        lemma_low_is_least(front);
        let w = choose|i: int| 0 <= i < front.len() && front[i] == low(front);
        assert(data[w] == low(front));
        assert(data[data.len() - 1] == data.last());
        assert forall|i: int| 0 <= i < data.len() implies !(#[trigger] data[i]).spec_lt(
            low(data),
        ) by {
            if i < front.len() {
                assert(front[i] == data[i]);
            }
        }
    } else {
        assert(data[0] == low(data));
    }
}

/// `high(data)` is an element of `data`, and no element is greater than it.
pub proof fn lemma_high_is_greatest(data: Seq<Float>)
    requires
        data.len() > 0,
    ensures
        data.contains(high(data)),
        forall|i: int| 0 <= i < data.len() ==> !(#[trigger] data[i]).spec_gt(high(data)),
    decreases data.len(),
{
    if data.len() > 1 {
        let front = data.drop_last();
        lemma_high_is_greatest(front);
        let w = choose|i: int| 0 <= i < front.len() && front[i] == high(front);
        assert(data[w] == high(front));
        assert(data[data.len() - 1] == data.last());
        assert forall|i: int| 0 <= i < data.len() implies !(#[trigger] data[i]).spec_gt(
            high(data),
        ) by {
            if i < front.len() {
                assert(front[i] == data[i]);
            }
        }
    } else {
        assert(data[0] == high(data));
    }
}

/// The smallest and the largest value of `data`, or `None` for empty data.
///
/// Both are elements of `data`; no element is less than the first or greater
/// than the second. A NaN never replaces a number, and a number never
/// replaces a NaN that stands first.
pub fn extent(data: &[Float]) -> (r: Option<(Float, Float)>)
    ensures
        r.is_none() <==> data@.len() == 0,
        r.is_some() ==> r.unwrap() == (low(data@), high(data@)),
        r.is_some() ==> data@.contains(r.unwrap().0) && data@.contains(r.unwrap().1),
        r.is_some() ==> forall|i: int|
            0 <= i < data@.len() ==> !(#[trigger] data@[i]).spec_lt(r.unwrap().0) && !data@[i].spec_gt(
                r.unwrap().1,
            ),
{
    if data.len() == 0 {
        return None;
    }
    let mut min = data[0];
    let mut max = data[0];
    let mut i: usize = 1;
    assert(data@.take(1).drop_last() =~= data@.take(0));
    while i < data.len()
        invariant
            1 <= i <= data@.len(),
            min == low(data@.take(i as int)),
            max == high(data@.take(i as int)),
        decreases data@.len() - i,
    {
        let value = data[i];
        assert(data@.take(i + 1).drop_last() =~= data@.take(i as int));
        assert(data@.take(i + 1).last() == value);
        if value.lt(min) {
            min = value;
        }
        if value.gt(max) {
            max = value;
        }
        i += 1;
    }
    assert(data@.take(i as int) =~= data@);
    proof {
        lemma_low_is_least(data@);
        lemma_high_is_greatest(data@);
    }
    Some((min, max))
}

/// The sum of `data`, added up from zero in order; zero for empty data.
pub fn sum(data: &[Float]) -> (r: Float)
    ensures
        r == total(data@),
{
    let mut acc = Float::from_bits(ZERO_BITS);
    let mut i: usize = 0;
    while i < data.len()
        invariant
            i <= data@.len(),
            acc == total(data@.take(i as int)),
        decreases data@.len() - i,
    {
        assert(data@.take(i + 1).drop_last() =~= data@.take(i as int));
        acc = acc.add(data[i]);
        i += 1;
    }
    assert(data@.take(i as int) =~= data@);
    acc
}

/// The arithmetic mean of `data`: its sum divided by its length.
pub open spec fn average(data: Seq<Float>) -> Float {
    total(data).spec_div(Float::spec_from_usize(data.len() as usize))
}

/// The arithmetic mean of `data`, or `None` for empty data.
pub fn mean(data: &[Float]) -> (r: Option<Float>)
    ensures
        r == if data@.len() == 0 {
            None
        } else {
            Some(average(data@))
        },
{
    if data.len() == 0 {
        return None;
    }
    Some(sum(data).div(Float::from_usize(data.len())))
}

/// The middle of sorted data: the element in the middle for an odd length,
/// half the sum of the two in the middle for an even one.
pub open spec fn middle(sorted: Seq<Float>) -> Float
    recommends
        sorted.len() > 0,
{
    let mid = sorted.len() as int / 2;
    if sorted.len() % 2 == 0 {
        sorted[mid - 1].spec_add(sorted[mid]).spec_div(Float::from_bits(TWO_BITS))
    } else {
        sorted[mid]
    }
}

/// Sorts `data` in place and returns its median, or `None` for empty data.
pub fn median(data: &mut [Float]) -> (r: Option<Float>)
    ensures
        final(data)@ == ascending(old(data)@),
        r == if old(data)@.len() == 0 {
            None
        } else {
            Some(middle(ascending(old(data)@)))
        },
{
    if data.len() == 0 {
        assert(ascending(data@) =~= data@);
        return None;
    }
    sort_ascending(data);
    let mid = data.len() / 2;
    if data.len() % 2 == 0 {
        Some(data[mid - 1].add(data[mid]).div(Float::from_bits(TWO_BITS)))
    } else {
        Some(data[mid])
    }
}

/// The sum of the squared distances of `data` from `center`, added up from
/// zero in sequence order.
pub open spec fn squared_deviations(data: Seq<Float>, center: Float) -> Float
    decreases data.len(),
{
    if data.len() == 0 {
        Float::from_bits(ZERO_BITS)
    } else {
        let d = data.last().spec_sub(center);
        squared_deviations(data.drop_last(), center).spec_add(d.spec_mul(d))
    }
}

/// The sample standard deviation of `data`: the root of the squared
/// deviations from the mean over one less than the length.
pub open spec fn deviation(data: Seq<Float>) -> Float {
    squared_deviations(data, average(data)).spec_div(
        Float::spec_from_usize((data.len() - 1) as usize),
    ).spec_sqrt()
}

/// The sample standard deviation of `data`, or `None` for fewer than two
/// values.
pub fn std_dev(data: &[Float]) -> (r: Option<Float>)
    ensures
        r == if data@.len() < 2 {
            None
        } else {
            Some(deviation(data@))
        },
{
    if data.len() < 2 {
        return None;
    }
    let center = sum(data).div(Float::from_usize(data.len()));
    let mut acc = Float::from_bits(ZERO_BITS);
    let mut i: usize = 0;
    while i < data.len()
        invariant
            i <= data@.len(),
            acc == squared_deviations(data@.take(i as int), center),
        decreases data@.len() - i,
    {
        assert(data@.take(i + 1).drop_last() =~= data@.take(i as int));
        let d = data[i].sub(center);
        acc = acc.add(d.mul(d));
        i += 1;
    }
    assert(data@.take(i as int) =~= data@);
    Some(acc.div(Float::from_usize(data.len() - 1)).sqrt())
}

/// The value at fraction `p` of the way through `sorted`, interpolated
/// linearly between the two neighbouring elements. Zero for empty data.
pub open spec fn percentile(sorted: Seq<Float>, p: Float) -> Float {
    let n = sorted.len();
    if n == 0 {
        Float::from_bits(ZERO_BITS)
    } else if n == 1 {
        sorted[0]
    } else {
        let h = p.spec_mul(Float::spec_from_usize((n - 1) as usize));
        let lo = h.spec_floor().spec_to_usize();
        let frac = h.spec_sub(Float::spec_from_usize(lo));
        if lo >= n - 1 {
            sorted[n - 1]
        } else {
            sorted[lo as int].spec_mul(Float::from_bits(ONE_BITS).spec_sub(frac)).spec_add(
                sorted[lo + 1].spec_mul(frac),
            )
        }
    }
}

/// The percentile of already sorted data at fraction `p`, which is meant to
/// lie between 0 and 1.
pub fn percentile_sorted(sorted: &[Float], p: Float) -> (r: Float)
    ensures
        r == percentile(sorted@, p),
{
    let n = sorted.len();
    if n == 0 {
        return Float::from_bits(ZERO_BITS);
    }
    if n == 1 {
        return sorted[0];
    }
    let h = p.mul(Float::from_usize(n - 1));
    let lo = h.floor().to_usize();
    let frac = h.sub(Float::from_usize(lo));
    if lo >= n - 1 {
        sorted[n - 1]
    } else {
        sorted[lo].mul(Float::from_bits(ONE_BITS).sub(frac)).add(sorted[lo + 1].mul(frac))
    }
}

/// The five-number summary of one group of values, with its mean and its
/// outliers.
#[derive(Debug, Clone, PartialEq)]
pub struct BoxPlotStats {
    /// The 25th percentile.
    pub q1: Float,
    /// The 50th percentile.
    pub median: Float,
    /// The 75th percentile.
    pub q3: Float,
    /// The interquartile range, `q3 - q1`.
    pub iqr: Float,
    /// The smallest value that is not below the lower fence.
    pub lower_whisker: Float,
    /// The largest value that is not above the upper fence.
    pub upper_whisker: Float,
    /// The arithmetic mean.
    pub mean: Float,
    /// The values outside the fences, in ascending order.
    pub outliers: Vec<Float>,
}

/// The 25th percentile of sorted data.
pub open spec fn first_quartile(sorted: Seq<Float>) -> Float {
    percentile(sorted, Float::from_bits(QUARTER_BITS))
}

/// The 75th percentile of sorted data.
pub open spec fn third_quartile(sorted: Seq<Float>) -> Float {
    percentile(sorted, Float::from_bits(THREE_QUARTERS_BITS))
}

/// The interquartile range of sorted data.
pub open spec fn interquartile_range(sorted: Seq<Float>) -> Float {
    third_quartile(sorted).spec_sub(first_quartile(sorted))
}

/// The lower fence: one and a half interquartile ranges below the first
/// quartile.
pub open spec fn lower_fence(sorted: Seq<Float>) -> Float {
    first_quartile(sorted).spec_sub(
        Float::from_bits(ONE_AND_HALF_BITS).spec_mul(interquartile_range(sorted)),
    )
}

/// The upper fence: one and a half interquartile ranges above the third
/// quartile.
pub open spec fn upper_fence(sorted: Seq<Float>) -> Float {
    third_quartile(sorted).spec_add(
        Float::from_bits(ONE_AND_HALF_BITS).spec_mul(interquartile_range(sorted)),
    )
}

/// The first element of `s` that is at least `bound`, or `fallback` where
/// there is none.
pub open spec fn first_at_least(s: Seq<Float>, bound: Float, fallback: Float) -> Float
    decreases s.len(),
{
    if s.len() == 0 {
        fallback
    } else if s[0].spec_ge(bound) {
        s[0]
    } else {
        first_at_least(s.drop_first(), bound, fallback)
    }
}

/// The last element of `s` that is at most `bound`, or `fallback` where
/// there is none.
pub open spec fn last_at_most(s: Seq<Float>, bound: Float, fallback: Float) -> Float
    decreases s.len(),
{
    if s.len() == 0 {
        fallback
    } else if s.last().spec_le(bound) {
        s.last()
    } else {
        last_at_most(s.drop_last(), bound, fallback)
    }
}

/// The elements of `s` that are below `lo` or above `hi`, in their order.
pub open spec fn outside(s: Seq<Float>, lo: Float, hi: Float) -> Seq<Float>
    decreases s.len(),
{
    if s.len() == 0 {
        s
    } else if s.last().spec_lt(lo) || s.last().spec_gt(hi) {
        outside(s.drop_last(), lo, hi).push(s.last())
    } else {
        outside(s.drop_last(), lo, hi)
    }
}

/// The first element that is at least a bound is an element that is at
/// least the bound, and the fallback only where no element is.
pub proof fn lemma_first_at_least(s: Seq<Float>, bound: Float, fallback: Float)
    ensures
        (exists|i: int| 0 <= i < s.len() && (#[trigger] s[i]).spec_ge(bound)) ==> s.contains(
            first_at_least(s, bound, fallback),
        ) && first_at_least(s, bound, fallback).spec_ge(bound),
        (forall|i: int| 0 <= i < s.len() ==> !(#[trigger] s[i]).spec_ge(bound)) ==> first_at_least(
            s,
            bound,
            fallback,
        ) == fallback,
    decreases s.len(),
{
    if s.len() > 0 {
        if s[0].spec_ge(bound) {
            assert(s.contains(s[0]));
        } else {
            let rest = s.drop_first();
            lemma_first_at_least(rest, bound, fallback);
            if exists|i: int| 0 <= i < s.len() && (#[trigger] s[i]).spec_ge(bound) {
                let i = choose|i: int| 0 <= i < s.len() && (#[trigger] s[i]).spec_ge(bound);
                assert(rest[i - 1] == s[i]);
                let r = first_at_least(rest, bound, fallback);
                let k = choose|k: int| 0 <= k < rest.len() && rest[k] == r;
                assert(s[k + 1] == r);
            } else {
                assert forall|i: int| 0 <= i < rest.len() implies !(#[trigger] rest[i]).spec_ge(
                    bound,
                ) by {
                    assert(rest[i] == s[i + 1]);
                }
            }
        }
    }
}

/// The last element that is at most a bound is an element that is at most
/// the bound, and the fallback only where no element is.
pub proof fn lemma_last_at_most(s: Seq<Float>, bound: Float, fallback: Float)
    ensures
        (exists|i: int| 0 <= i < s.len() && (#[trigger] s[i]).spec_le(bound)) ==> s.contains(
            last_at_most(s, bound, fallback),
        ) && last_at_most(s, bound, fallback).spec_le(bound),
        (forall|i: int| 0 <= i < s.len() ==> !(#[trigger] s[i]).spec_le(bound)) ==> last_at_most(
            s,
            bound,
            fallback,
        ) == fallback,
    decreases s.len(),
{
    if s.len() > 0 {
        if s.last().spec_le(bound) {
            assert(s[s.len() - 1] == s.last());
        } else {
            let rest = s.drop_last();
            lemma_last_at_most(rest, bound, fallback);
            if exists|i: int| 0 <= i < s.len() && (#[trigger] s[i]).spec_le(bound) {
                let i = choose|i: int| 0 <= i < s.len() && (#[trigger] s[i]).spec_le(bound);
                assert(rest[i] == s[i]);
                let r = last_at_most(rest, bound, fallback);
                let k = choose|k: int| 0 <= k < rest.len() && rest[k] == r;
                assert(s[k] == r);
            } else {
                assert forall|i: int| 0 <= i < rest.len() implies !(#[trigger] rest[i]).spec_le(
                    bound,
                ) by {
                    assert(rest[i] == s[i]);
                }
            }
        }
    }
}

/// The outliers are exactly the elements that lie below the lower bound or
/// above the upper one.
pub proof fn lemma_outside_is_exact(s: Seq<Float>, lo: Float, hi: Float, x: Float)
    ensures
        outside(s, lo, hi).contains(x) <==> s.contains(x) && (x.spec_lt(lo) || x.spec_gt(hi)),
    decreases s.len(),
{
    if s.len() > 0 {
        let front = s.drop_last();
        lemma_outside_is_exact(front, lo, hi, x);
        let out = outside(s, lo, hi);
        if out.contains(x) {
            let k = choose|k: int| 0 <= k < out.len() && out[k] == x;
            if (s.last().spec_lt(lo) || s.last().spec_gt(hi)) && k == out.len() - 1 {
                assert(s[s.len() - 1] == x);
            } else {
                assert(outside(front, lo, hi)[k] == x);
                let j = choose|j: int| 0 <= j < front.len() && front[j] == x;
                assert(s[j] == x);
            }
        }
        if s.contains(x) && (x.spec_lt(lo) || x.spec_gt(hi)) {
            let j = choose|j: int| 0 <= j < s.len() && s[j] == x;
            if j == s.len() - 1 {
                assert(out[out.len() - 1] == x);
            } else {
                assert(front[j] == x);
                let k = choose|k: int|
                    0 <= k < outside(front, lo, hi).len() && outside(front, lo, hi)[k] == x;
                assert(out[k] == x);
            }
        }
    }
}

fn find_first_at_least(s: &[Float], bound: Float, fallback: Float) -> (r: Float)
    ensures
        r == first_at_least(s@, bound, fallback),
{
    let n = s.len();
    let mut i: usize = 0;
    assert(s@.skip(0) =~= s@);
    while i < n
        invariant
            n == s@.len(),
            i <= n,
            first_at_least(s@, bound, fallback) == first_at_least(
                s@.skip(i as int),
                bound,
                fallback,
            ),
        decreases n - i,
    {
        assert(s@.skip(i as int).drop_first() =~= s@.skip(i + 1));
        if s[i].ge(bound) {
            return s[i];
        }
        i += 1;
    }
    fallback
}

fn find_last_at_most(s: &[Float], bound: Float, fallback: Float) -> (r: Float)
    ensures
        r == last_at_most(s@, bound, fallback),
{
    let mut j: usize = s.len();
    assert(s@.take(j as int) =~= s@);
    while j > 0
        invariant
            j <= s@.len(),
            last_at_most(s@, bound, fallback) == last_at_most(s@.take(j as int), bound, fallback),
        decreases j,
    {
        assert(s@.take(j as int).drop_last() =~= s@.take(j - 1));
        if s[j - 1].le(bound) {
            return s[j - 1];
        }
        j -= 1;
    }
    fallback
}

/// The box-plot summary of sorted data.
pub open spec fn box_plot_summary(sorted: Seq<Float>, stats: BoxPlotStats) -> bool {
    &&& stats.q1 == first_quartile(sorted)
    &&& stats.median == percentile(sorted, Float::from_bits(HALF_BITS))
    &&& stats.q3 == third_quartile(sorted)
    &&& stats.iqr == interquartile_range(sorted)
    &&& stats.lower_whisker == first_at_least(sorted, lower_fence(sorted), first_quartile(sorted))
    &&& stats.upper_whisker == last_at_most(sorted, upper_fence(sorted), third_quartile(sorted))
    &&& stats.mean == average(sorted)
    &&& stats.outliers@ == outside(sorted, lower_fence(sorted), upper_fence(sorted))
}

/// Sorts `data` in place and summarises it for a box plot, or returns `None`
/// for empty data.
///
/// The whiskers are values of the data: the smallest one not below the lower
/// fence and the largest one not above the upper fence. The outliers are the
/// values strictly outside the fences.
pub fn box_plot_stats(data: &mut [Float]) -> (r: Option<BoxPlotStats>)
    ensures
        final(data)@ == ascending(old(data)@),
        r.is_none() <==> old(data)@.len() == 0,
        r.is_some() ==> box_plot_summary(ascending(old(data)@), r.unwrap()),
{
    if data.len() == 0 {
        assert(ascending(data@) =~= data@);
        return None;
    }
    sort_ascending(data);
    let q1 = percentile_sorted(data, Float::from_bits(QUARTER_BITS));
    let med = percentile_sorted(data, Float::from_bits(HALF_BITS));
    let q3 = percentile_sorted(data, Float::from_bits(THREE_QUARTERS_BITS));
    let iqr = q3.sub(q1);
    let spread = Float::from_bits(ONE_AND_HALF_BITS).mul(iqr);
    let lower = q1.sub(spread);
    let upper = q3.add(spread);
    let n = data.len();

    let lower_whisker = find_first_at_least(data, lower, q1);
    let upper_whisker = find_last_at_most(data, upper, q3);
    let mean_val = sum(data).div(Float::from_usize(n));

    let mut outliers: Vec<Float> = Vec::new();
    let mut k: usize = 0;
    while k < n
        invariant
            n == data@.len(),
            k <= n,
            outliers@ == outside(data@.take(k as int), lower, upper),
        decreases n - k,
    {
        assert(data@.take(k + 1).drop_last() =~= data@.take(k as int));
        let x = data[k];
        if x.lt(lower) || x.gt(upper) {
            outliers.push(x);
        }
        k += 1;
    }
    assert(data@.take(n as int) =~= data@);
    Some(
        BoxPlotStats {
            q1,
            median: med,
            q3,
            iqr,
            lower_whisker,
            upper_whisker,
            mean: mean_val,
            outliers,
        },
    )
}

/// How the number of histogram bins is chosen.
#[derive(Debug, Clone, Copy, PartialEq, Eq, Structural)]
pub enum BinRule {
    /// One more than the base-2 logarithm of the number of values, rounded up.
    Sturges,
    /// Bins of width 3.49 σ n^(-1/3).
    Scott,
    /// Bins of width 2 IQR n^(-1/3); robust to outliers.
    FreedmanDiaconis,
    /// A given number of bins.
    Fixed(usize),
}

impl Default for BinRule {
    fn default() -> (r: BinRule)
        ensures
            r == BinRule::FreedmanDiaconis,
    {
        BinRule::FreedmanDiaconis
    }
}

/// One histogram bin: the values from `x0` up to, but not including, `x1`.
/// The last bin of a histogram also takes the values equal to its `x1`.
#[derive(Debug, Clone, Copy, PartialEq)]
pub struct Bin {
    pub x0: Float,
    pub x1: Float,
    pub count: usize,
}

/// Bit pattern of 3.49, the factor of Scott's rule.
pub const SCOTT_FACTOR_BITS: u64 = 0x400b_eb85_1eb8_51ec;

/// The least `e` with `2^e >= n`; 0 for `n` up to 1.
pub open spec fn ceil_log2(n: nat) -> nat
    decreases n,
{
    if n <= 1 {
        0
    } else {
        1 + ceil_log2((n - n / 2) as nat)
    }
}

/// 2 to the power `e`.
pub open spec fn two_to(e: nat) -> nat
    decreases e,
{
    if e == 0 {
        1
    } else {
        2 * two_to((e - 1) as nat)
    }
}

/// `ceil_log2(n)` is the least exponent whose power of two reaches `n`.
pub proof fn lemma_ceil_log2_is_least(n: nat)
    requires
        n >= 1,
    ensures
        two_to(ceil_log2(n)) >= n,
        n > 1 ==> ceil_log2(n) >= 1 && two_to((ceil_log2(n) - 1) as nat) < n,
    decreases n,
{
    if n > 1 {
        let half = (n - n / 2) as nat;
        lemma_ceil_log2_is_least(half);
        if half > 1 {
            assert(two_to((ceil_log2(n) - 1) as nat) == 2 * two_to((ceil_log2(half) - 1) as nat));
        } else {
            assert(two_to(0) == 1);
        }
    }
}

/// The number of bins of Sturges' rule for `n` values: the base-2 logarithm
/// of `n`, rounded up, and one more.
pub fn sturges_count(n: usize) -> (k: usize)
    ensures
        k == ceil_log2(n as nat) + 1,
{
    let mut m: usize = n;
    let mut e: usize = 0;
    while m > 1
        invariant
            ceil_log2(n as nat) == e + ceil_log2(m as nat),
            e + m <= n,
            m >= 1 || e == 0,
        decreases m,
    {
        m = m - m / 2;
        e += 1;
    }
    e + 1
}

/// The number of bins that `rule` asks for on `data`, at least 1, and 1 for
/// no data. `shrink` stands for `n^(-1/3)`, `n` being the number of values;
/// only the rules of Scott and of Freedman and Diaconis read it.
pub open spec fn spec_bin_count(data: Seq<Float>, rule: BinRule, shrink: Float) -> nat {
    let span = high(data).spec_sub(low(data));
    let zero = Float::from_bits(ZERO_BITS);
    let asked: nat = match rule {
        BinRule::Sturges => ceil_log2(data.len()) + 1,
        BinRule::Scott => {
            if data.len() >= 2 && deviation(data).spec_gt(zero) {
                let h = Float::from_bits(SCOTT_FACTOR_BITS).spec_mul(deviation(data)).spec_mul(
                    shrink,
                );
                span.spec_div(h).spec_ceil().spec_to_usize() as nat
            } else {
                1
            }
        },
        BinRule::FreedmanDiaconis => {
            let iqr = interquartile_range(ascending(data));
            if iqr.spec_gt(zero) {
                let h = Float::from_bits(TWO_BITS).spec_mul(iqr).spec_mul(shrink);
                span.spec_div(h).spec_ceil().spec_to_usize() as nat
            } else {
                ceil_log2(data.len()) + 1
            }
        },
        BinRule::Fixed(k) => k as nat,
    };
    if asked < 1 || data.len() == 0 {
        1
    } else {
        asked
    }
}

/// The number of bins that `rule` asks for on `data`.
///
/// Sturges' rule asks for one more than the base-2 logarithm of the number
/// of values, rounded up. The rules of Scott and of Freedman and Diaconis ask
/// for as many bins of their width as cover the range of the values: widths
/// of `3.49 σ n^(-1/3)` and `2 IQR n^(-1/3)`. Scott's rule asks for one bin
/// where the values have no spread; that of Freedman and Diaconis falls back
/// on Sturges' rule where the interquartile range is zero. A fixed rule asks
/// for its number. In every case there is at least one bin.
pub fn bin_count(data: &[Float], rule: BinRule, shrink: Float) -> (k: usize)
    ensures
        k == spec_bin_count(data@, rule, shrink),
        k >= 1,
{
    let (lo, hi) = match extent(data) {
        Some(pair) => pair,
        None => {
            return 1;
        },
    };
    let span = hi.sub(lo);
    let zero = Float::from_bits(ZERO_BITS);
    let asked: usize = match rule {
        BinRule::Sturges => sturges_count(data.len()),
        BinRule::Scott => {
            match std_dev(data) {
                Some(sd) => {
                    if sd.gt(zero) {
                        let h = Float::from_bits(SCOTT_FACTOR_BITS).mul(sd).mul(shrink);
                        span.div(h).ceil().to_usize()
                    } else {
                        1
                    }
                },
                None => 1,
            }
        },
        BinRule::FreedmanDiaconis => {
            let mut sorted = slice_to_vec(data);
            sort_ascending(sorted.as_mut_slice());
            let q1 = percentile_sorted(&sorted, Float::from_bits(QUARTER_BITS));
            let q3 = percentile_sorted(&sorted, Float::from_bits(THREE_QUARTERS_BITS));
            let iqr = q3.sub(q1);
            if iqr.gt(zero) {
                let h = Float::from_bits(TWO_BITS).mul(iqr).mul(shrink);
                span.div(h).ceil().to_usize()
            } else {
                sturges_count(data.len())
            }
        },
        BinRule::Fixed(k) => k,
    };
    if asked < 1 {
        1
    } else {
        asked
    }
}

/// Whether `value` lies within `[lo, hi]` as far as comparison can tell: it
/// is neither less than `lo` nor greater than `hi`.
pub open spec fn kept(value: Float, lo: Float, hi: Float) -> bool {
    !value.spec_lt(lo) && !value.spec_gt(hi)
}

/// The bin of `value` among `k` bins of the given width that start at `lo`:
/// the whole number of widths between `lo` and `value`, and the last bin
/// where that is too large.
pub open spec fn bin_index(value: Float, lo: Float, width: Float, k: nat) -> int {
    let raw = value.spec_sub(lo).spec_div(width).spec_floor().spec_to_usize();
    if raw < k - 1 {
        raw as int
    } else {
        k - 1
    }
}

/// How many values of `data` fall into bin `i`.
pub open spec fn tally(data: Seq<Float>, lo: Float, hi: Float, width: Float, k: nat, i: int) -> nat
    decreases data.len(),
{
    if data.len() == 0 {
        0
    } else {
        let rest = tally(data.drop_last(), lo, hi, width, k, i);
        if kept(data.last(), lo, hi) && bin_index(data.last(), lo, width, k) == i {
            rest + 1
        } else {
            rest
        }
    }
}

/// How many values of `data` fall into a bin below `upto`.
pub open spec fn tally_below(
    data: Seq<Float>,
    lo: Float,
    hi: Float,
    width: Float,
    k: nat,
    upto: int,
) -> nat
    decreases data.len(),
{
    if data.len() == 0 {
        0
    } else {
        let rest = tally_below(data.drop_last(), lo, hi, width, k, upto);
        if kept(data.last(), lo, hi) && bin_index(data.last(), lo, width, k) < upto {
            rest + 1
        } else {
            rest
        }
    }
}

/// The sum of the counts of `bins`.
pub open spec fn count_sum(bins: Seq<Bin>) -> nat
    decreases bins.len(),
{
    if bins.len() == 0 {
        0
    } else {
        count_sum(bins.drop_last()) + bins.last().count as nat
    }
}

proof fn lemma_tally_bounded(data: Seq<Float>, lo: Float, hi: Float, width: Float, k: nat, i: int)
    ensures
        tally(data, lo, hi, width, k, i) <= data.len(),
    decreases data.len(),
{
    if data.len() > 0 {
        lemma_tally_bounded(data.drop_last(), lo, hi, width, k, i);
    }
}

proof fn lemma_tally_below_step(
    data: Seq<Float>,
    lo: Float,
    hi: Float,
    width: Float,
    k: nat,
    upto: int,
)
    ensures
        tally_below(data, lo, hi, width, k, upto + 1) == tally_below(data, lo, hi, width, k, upto)
            + tally(data, lo, hi, width, k, upto),
    decreases data.len(),
{
    if data.len() > 0 {
        lemma_tally_below_step(data.drop_last(), lo, hi, width, k, upto);
    }
}

proof fn lemma_tally_below_none(data: Seq<Float>, lo: Float, hi: Float, width: Float, k: nat)
    requires
        k >= 1,
    ensures
        tally_below(data, lo, hi, width, k, 0) == 0,
    decreases data.len(),
{
    if data.len() > 0 {
        lemma_tally_below_none(data.drop_last(), lo, hi, width, k);
    }
}

proof fn lemma_tally_below_all(data: Seq<Float>, lo: Float, hi: Float, width: Float, k: nat)
    requires
        k >= 1,
        forall|i: int| 0 <= i < data.len() ==> kept(#[trigger] data[i], lo, hi),
    ensures
        tally_below(data, lo, hi, width, k, k as int) == data.len(),
    decreases data.len(),
{
    if data.len() > 0 {
        let front = data.drop_last();
        assert forall|i: int| 0 <= i < front.len() implies kept(#[trigger] front[i], lo, hi) by {
            assert(front[i] == data[i]);
        }
        lemma_tally_below_all(front, lo, hi, width, k);
        assert(kept(data[data.len() - 1], lo, hi));
    }
}

proof fn lemma_count_sum_tally(
    bins: Seq<Bin>,
    data: Seq<Float>,
    lo: Float,
    hi: Float,
    width: Float,
    k: nat,
)
    requires
        k >= 1,
        bins.len() <= k,
        forall|i: int|
            0 <= i < bins.len() ==> (#[trigger] bins[i]).count == tally(data, lo, hi, width, k, i),
    ensures
        count_sum(bins) == tally_below(data, lo, hi, width, k, bins.len() as int),
    decreases bins.len(),
{
    if bins.len() == 0 {
        lemma_tally_below_none(data, lo, hi, width, k);
    } else {
        let front = bins.drop_last();
        assert forall|i: int| 0 <= i < front.len() implies (#[trigger] front[i]).count == tally(
            data,
            lo,
            hi,
            width,
            k,
            i,
        ) by {
            assert(front[i] == bins[i]);
        }
        lemma_count_sum_tally(front, data, lo, hi, width, k);
        lemma_tally_below_step(data, lo, hi, width, k, front.len() as int);
        assert(bins[bins.len() - 1] == bins.last());
    }
}

/// Whether the values of `data` span less than the gap between 1 and the
/// next larger number.
pub open spec fn is_flat(data: Seq<Float>) -> bool {
    high(data).spec_sub(low(data)).spec_abs().spec_lt(Float::from_bits(EPSILON_BITS))
}

/// Bin `i` of the histogram of `data` with `k` bins of equal width.
pub open spec fn histogram_bin(data: Seq<Float>, k: nat, i: int) -> Bin {
    let lo = low(data);
    let hi = high(data);
    let width = hi.spec_sub(lo).spec_div(Float::spec_from_usize(k as usize));
    Bin {
        x0: lo.spec_add(Float::spec_from_usize(i as usize).spec_mul(width)),
        x1: lo.spec_add(Float::spec_from_usize((i + 1) as usize).spec_mul(width)),
        count: tally(data, lo, hi, width, k, i) as usize,
    }
}

/// The histogram of `data` under `rule`.
pub open spec fn histogram(data: Seq<Float>, rule: BinRule, shrink: Float) -> Seq<Bin> {
    if data.len() == 0 {
        Seq::empty()
    } else if is_flat(data) {
        seq![
            Bin {
                x0: low(data),
                x1: low(data).spec_add(Float::from_bits(ONE_BITS)),
                count: data.len() as usize,
            },
        ]
    } else {
        Seq::new(
            spec_bin_count(data, rule, shrink),
            |i: int| histogram_bin(data, spec_bin_count(data, rule, shrink), i),
        )
    }
}

/// Bit pattern of -1/3, the power of the number of values by which the rules
/// of Scott and of Freedman and Diaconis scale their bin width.
pub const MINUS_THIRD_BITS: u64 = 0xbfd5_5555_5555_5555;

/// Bit pattern of -0.2, the power of the number of values by which
/// Silverman's rule scales its bandwidth.
pub const MINUS_FIFTH_BITS: u64 = 0xbfc9_9999_9999_999a;

/// `n` to the power -1/3.
pub open spec fn bin_shrink(n: nat) -> Float {
    Float::spec_from_usize(n as usize).spec_powf(Float::from_bits(MINUS_THIRD_BITS))
}

/// The histogram of `data`, with the number of bins chosen by `rule`.
///
/// Empty data has no bins. Data that spans less than the gap between 1 and
/// the next larger number has one bin of width 1 that holds every value.
/// Otherwise the range from the smallest to the largest value is cut into
/// bins of equal width, and each value is counted in the bin it falls into,
/// the largest value in the last bin. Every value is counted once, so the
/// counts add up to the number of values.
pub fn histogram_bins(data: &[Float], rule: BinRule) -> (bins: Vec<Bin>)
    ensures
        bins@ == histogram(data@, rule, bin_shrink(data@.len())),
        count_sum(bins@) == data@.len(),
        data@.len() > 0 && !is_flat(data@) ==> bins@.len() == spec_bin_count(
            data@,
            rule,
            bin_shrink(data@.len()),
        ),
        forall|k: usize|
            rule == BinRule::Fixed(k) && k >= 1 && data@.len() > 0 && !is_flat(data@)
                ==> bins@.len() == k,
{
    let shrink = Float::from_usize(data.len()).powf(Float::from_bits(MINUS_THIRD_BITS));
    histogram_bins_with_shrink(data, rule, shrink)
}

/// The histogram of `data` as [`histogram_bins`] gives it, for a caller that
/// has `n^(-1/3)` at hand: `shrink` stands for it, `n` being the number of
/// values. Only the rules of Scott and of Freedman and Diaconis read it.
///
/// Empty data has no bins. Data that spans less than the gap between 1 and
/// the next larger number has one bin of width 1 that holds every value.
/// Otherwise the range from the smallest to the largest value is cut into
/// bins of equal width, and each value is counted in the bin it falls into,
/// the largest value in the last bin. Every value is counted once, so the
/// counts add up to the number of values.
pub fn histogram_bins_with_shrink(data: &[Float], rule: BinRule, shrink: Float) -> (bins: Vec<
    Bin,
>)
    ensures
        bins@ == histogram(data@, rule, shrink),
        count_sum(bins@) == data@.len(),
        data@.len() > 0 && !is_flat(data@) ==> bins@.len() == spec_bin_count(data@, rule, shrink),
        forall|k: usize|
            rule == BinRule::Fixed(k) && k >= 1 && data@.len() > 0 && !is_flat(data@)
                ==> bins@.len() == k,
{
    let n = data.len();
    let (lo, hi) = match extent(data) {
        Some(pair) => pair,
        None => {
            assert(count_sum(Seq::<Bin>::empty()) == 0);
            return Vec::new();
        },
    };
    let mut bins: Vec<Bin> = Vec::new();
    if hi.sub(lo).abs().lt(Float::from_bits(EPSILON_BITS)) {
        bins.push(Bin { x0: lo, x1: lo.add(Float::from_bits(ONE_BITS)), count: n });
        assert(bins@ =~= histogram(data@, rule, shrink));
        assert(count_sum(bins@) == n) by {
            assert(bins@.drop_last() =~= Seq::<Bin>::empty());
            assert(count_sum(bins@.drop_last()) == 0);
        }
        return bins;
    }
    let k = bin_count(data, rule, shrink);
    let width = hi.sub(lo).div(Float::from_usize(k));
    let mut i: usize = 0;
    while i < k
        invariant
            i <= k,
            bins@.len() == i,
            forall|b: int|
                0 <= b < i ==> #[trigger] bins@[b] == (Bin {
                    x0: lo.spec_add(Float::spec_from_usize(b as usize).spec_mul(width)),
                    x1: lo.spec_add(Float::spec_from_usize((b + 1) as usize).spec_mul(width)),
                    count: 0,
                }),
        decreases k - i,
    {
        bins.push(
            Bin {
                x0: lo.add(Float::from_usize(i).mul(width)),
                x1: lo.add(Float::from_usize(i + 1).mul(width)),
                count: 0,
            },
        );
        i += 1;
    }
    let mut j: usize = 0;
    while j < n
        invariant
            j <= n,
            n == data@.len(),
            k >= 1,
            bins@.len() == k,
            forall|b: int|
                0 <= b < k ==> #[trigger] bins@[b] == (Bin {
                    x0: lo.spec_add(Float::spec_from_usize(b as usize).spec_mul(width)),
                    x1: lo.spec_add(Float::spec_from_usize((b + 1) as usize).spec_mul(width)),
                    count: tally(data@.take(j as int), lo, hi, width, k as nat, b) as usize,
                }),
        decreases n - j,
    {
        let value = data[j];
        proof {
            assert(data@.take(j + 1).drop_last() =~= data@.take(j as int));
            assert(data@.take(j + 1).last() == value);
            assert forall|b: int| 0 <= b < k implies tally(
                data@.take(j as int),
                lo,
                hi,
                width,
                k as nat,
                b,
            ) <= j by {
                lemma_tally_bounded(data@.take(j as int), lo, hi, width, k as nat, b);
            }
        }
        if !(value.lt(lo) || value.gt(hi)) {
            let raw = value.sub(lo).div(width).floor().to_usize();
            let idx = if raw < k - 1 {
                raw
            } else {
                k - 1
            };
            let bin = bins[idx];
            bins.set(idx, Bin { x0: bin.x0, x1: bin.x1, count: bin.count + 1 });
        }
        j += 1;
    }
    proof {
        assert(data@.take(n as int) =~= data@);
        assert(bins@ =~= histogram(data@, rule, shrink)) by {
            assert forall|b: int| 0 <= b < k implies bins@[b] == histogram_bin(
                data@,
                k as nat,
                b,
            ) by {
                lemma_tally_bounded(data@, lo, hi, width, k as nat, b);
            }
        }
        assert forall|b: int| 0 <= b < bins@.len() implies (#[trigger] bins@[b]).count == tally(
            data@,
            lo,
            hi,
            width,
            k as nat,
            b,
        ) by {
            lemma_tally_bounded(data@, lo, hi, width, k as nat, b);
        }
        lemma_count_sum_tally(bins@, data@, lo, hi, width, k as nat);
        lemma_tally_below_all(data@, lo, hi, width, k as nat);
    }
    bins
}

/// The mean of the `window` values of `data` that start at `start`.
pub open spec fn window_mean(data: Seq<Float>, start: int, window: int) -> Float {
    total(data.subrange(start, start + window)).spec_div(Float::spec_from_usize(window as usize))
}

/// The simple moving average of `data` over `window` values: one mean for
/// each position at which a full window fits.
pub open spec fn moving_average(data: Seq<Float>, window: int) -> Seq<Float> {
    if window <= 0 || window > data.len() {
        Seq::empty()
    } else {
        Seq::new((data.len() - window + 1) as nat, |i: int| window_mean(data, i, window))
    }
}

/// The simple moving average of `data` over `window` values. It has
/// `data.len() - window + 1` elements, and none where `window` is 0 or larger
/// than the data.
pub fn sma(data: &[Float], window: usize) -> (r: Vec<Float>)
    ensures
        r@ == moving_average(data@, window as int),
        r@.len() == if window == 0 || window > data@.len() {
            0
        } else {
            data@.len() - window + 1
        },
{
    let n = data.len();
    let mut out: Vec<Float> = Vec::new();
    if window == 0 || window > n {
        assert(out@ =~= moving_average(data@, window as int));
        return out;
    }
    let divisor = Float::from_usize(window);
    let mut i: usize = 0;
    while i <= n - window
        invariant
            0 < window <= n,
            n == data@.len(),
            i <= n - window + 1,
            out@.len() == i,
            divisor == Float::spec_from_usize(window),
            forall|k: int| 0 <= k < i ==> out@[k] == window_mean(data@, k, window as int),
        decreases n - window + 1 - i,
    {
        let mut acc = Float::from_bits(ZERO_BITS);
        let mut j: usize = 0;
        while j < window
            invariant
                0 < window <= n,
                n == data@.len(),
                i <= n - window,
                j <= window,
                acc == total(data@.subrange(i as int, i + j)),
            decreases window - j,
        {
            assert(data@.subrange(i as int, i + j + 1).drop_last() =~= data@.subrange(
                i as int,
                i + j,
            ));
            acc = acc.add(data[i + j]);
            j += 1;
        }
        out.push(acc.div(divisor));
        i += 1;
    }
    assert(out@ =~= moving_average(data@, window as int));
    out
}

/// Element `i` of the exponential moving average of `data` with smoothing
/// factor `alpha`: the first value of the data, and from then on `alpha`
/// times the next value plus `1 - alpha` times the element before.
pub open spec fn smoothed(data: Seq<Float>, alpha: Float, i: int) -> Float
    decreases i,
{
    if i <= 0 {
        data[0]
    } else {
        alpha.spec_mul(data[i]).spec_add(
            Float::from_bits(ONE_BITS).spec_sub(alpha).spec_mul(smoothed(data, alpha, i - 1)),
        )
    }
}

/// The exponential moving average of `data`, as long as the data. `alpha` is
/// the smoothing factor, moved into `[0, 1]` first.
pub fn ema(data: &[Float], alpha: Float) -> (r: Vec<Float>)
    ensures
        r@.len() == data@.len(),
        forall|i: int|
            0 <= i < data@.len() ==> r@[i] == smoothed(
                data@,
                alpha.spec_clamp(Float::from_bits(ZERO_BITS), Float::from_bits(ONE_BITS)),
                i,
            ),
{
    let n = data.len();
    let mut out: Vec<Float> = Vec::new();
    if n == 0 {
        return out;
    }
    let a = alpha.clamp(Float::from_bits(ZERO_BITS), Float::from_bits(ONE_BITS));
    let rest = Float::from_bits(ONE_BITS).sub(a);
    out.push(data[0]);
    let mut i: usize = 1;
    while i < n
        invariant
            1 <= i <= n,
            n == data@.len(),
            out@.len() == i,
            rest == Float::from_bits(ONE_BITS).spec_sub(a),
            forall|k: int| 0 <= k < i ==> out@[k] == smoothed(data@, a, k),
        decreases n - i,
    {
        let prev = out[i - 1];
        out.push(a.mul(data[i]).add(rest.mul(prev)));
        i += 1;
    }
    out
}

/// The sum of the first coordinates of `points`, added up from zero in
/// order.
pub open spec fn total_x(points: Seq<(Float, Float)>) -> Float
    decreases points.len(),
{
    if points.len() == 0 {
        Float::from_bits(ZERO_BITS)
    } else {
        total_x(points.drop_last()).spec_add(points.last().0)
    }
}

/// The sum of the second coordinates of `points`, added up from zero in
/// order.
pub open spec fn total_y(points: Seq<(Float, Float)>) -> Float
    decreases points.len(),
{
    if points.len() == 0 {
        Float::from_bits(ZERO_BITS)
    } else {
        total_y(points.drop_last()).spec_add(points.last().1)
    }
}

/// The sum over `points` of the products of the distances from `(cx, cy)`.
pub open spec fn co_deviations(points: Seq<(Float, Float)>, cx: Float, cy: Float) -> Float
    decreases points.len(),
{
    if points.len() == 0 {
        Float::from_bits(ZERO_BITS)
    } else {
        co_deviations(points.drop_last(), cx, cy).spec_add(
            points.last().0.spec_sub(cx).spec_mul(points.last().1.spec_sub(cy)),
        )
    }
}

/// The sum over `points` of the squared distances of the first coordinate
/// from `cx`.
pub open spec fn x_deviations(points: Seq<(Float, Float)>, cx: Float) -> Float
    decreases points.len(),
{
    if points.len() == 0 {
        Float::from_bits(ZERO_BITS)
    } else {
        let d = points.last().0.spec_sub(cx);
        x_deviations(points.drop_last(), cx).spec_add(d.spec_mul(d))
    }
}

/// The intercept and the slope of the least-squares line through `points`,
/// or `None` where the first coordinates do not vary.
pub open spec fn least_squares(points: Seq<(Float, Float)>) -> Option<(Float, Float)> {
    let n = Float::spec_from_usize(points.len() as usize);
    let cx = total_x(points).spec_div(n);
    let cy = total_y(points).spec_div(n);
    let num = co_deviations(points, cx, cy);
    let den = x_deviations(points, cx);
    if den.spec_abs().spec_lt(Float::from_bits(EPSILON_BITS)) {
        None
    } else {
        let slope = num.spec_div(den);
        Some((cy.spec_sub(slope.spec_mul(cx)), slope))
    }
}

/// Ordinary least squares: the intercept and the slope of the line
/// `y = intercept + slope * x` that fits `points` best. `None` for fewer than
/// two points, and where all first coordinates are the same.
pub fn linear_regression(points: &[(Float, Float)]) -> (r: Option<(Float, Float)>)
    ensures
        r == if points@.len() < 2 {
            None
        } else {
            least_squares(points@)
        },
{
    let n = points.len();
    if n < 2 {
        return None;
    }
    let count = Float::from_usize(n);
    let mut sx = Float::from_bits(ZERO_BITS);
    let mut sy = Float::from_bits(ZERO_BITS);
    let mut i: usize = 0;
    while i < n
        invariant
            i <= n,
            n == points@.len(),
            sx == total_x(points@.take(i as int)),
            sy == total_y(points@.take(i as int)),
        decreases n - i,
    {
        assert(points@.take(i + 1).drop_last() =~= points@.take(i as int));
        sx = sx.add(points[i].0);
        sy = sy.add(points[i].1);
        i += 1;
    }
    assert(points@.take(n as int) =~= points@);
    let cx = sx.div(count);
    let cy = sy.div(count);
    let mut num = Float::from_bits(ZERO_BITS);
    let mut den = Float::from_bits(ZERO_BITS);
    let mut j: usize = 0;
    while j < n
        invariant
            j <= n,
            n == points@.len(),
            num == co_deviations(points@.take(j as int), cx, cy),
            den == x_deviations(points@.take(j as int), cx),
        decreases n - j,
    {
        assert(points@.take(j + 1).drop_last() =~= points@.take(j as int));
        let dx = points[j].0.sub(cx);
        let dy = points[j].1.sub(cy);
        num = num.add(dx.mul(dy));
        den = den.add(dx.mul(dx));
        j += 1;
    }
    if den.abs().lt(Float::from_bits(EPSILON_BITS)) {
        return None;
    }
    let slope = num.div(den);
    Some((cy.sub(slope.mul(cx)), slope))
}

/// Bit pattern of 1.06, the factor of Silverman's rule.
pub const SILVERMAN_FACTOR_BITS: u64 = 0x3ff0_f5c2_8f5c_28f6;

/// Bit pattern of 3: the grid reaches three bandwidths beyond the data.
pub const GRID_REACH_BITS: u64 = 0x4008_0000_0000_0000;

/// Bit pattern of -0.5, the factor of the squared distance in a Gaussian
/// kernel.
pub const MINUS_HALF_BITS: u64 = 0xbfe0_0000_0000_0000;

/// A kernel density estimate: the density `ys[i]` at each position `xs[i]`.
#[derive(Debug, Clone)]
pub struct KdeResult {
    pub xs: Vec<Float>,
    pub ys: Vec<Float>,
}

/// What a Gaussian kernel density estimate is evaluated with: the bandwidth
/// of the kernels, the factor that makes the densities integrate to one, and
/// the positions at which the density is taken.
#[derive(Debug, Clone)]
pub struct KdePlan {
    pub bandwidth: Float,
    pub norm_factor: Float,
    pub xs: Vec<Float>,
}

/// The bandwidth of Silverman's rule, `1.06 σ n^(-0.2)`; `shrink` stands for
/// `n^(-0.2)`.
pub open spec fn silverman_bandwidth(data: Seq<Float>, shrink: Float) -> Float {
    Float::from_bits(SILVERMAN_FACTOR_BITS).spec_mul(deviation(data)).spec_mul(shrink)
}

/// The factor that makes the kernels of `n` values integrate to one:
/// `1 / (h √(2π) n)`.
pub open spec fn kernel_norm(h: Float, n: nat) -> Float {
    Float::from_bits(ONE_BITS).spec_div(
        h.spec_mul(
            Float::from_bits(TWO_BITS).spec_mul(Float::from_bits(PI_BITS)).spec_sqrt(),
        ).spec_mul(Float::spec_from_usize(n as usize)),
    )
}

/// Position `i` of a grid of `n_points` positions spread evenly from three
/// bandwidths below the data to three bandwidths above it.
pub open spec fn grid_position(data: Seq<Float>, h: Float, n_points: int, i: int) -> Float {
    let reach = Float::from_bits(GRID_REACH_BITS).spec_mul(h);
    let x_lo = low(data).spec_sub(reach);
    let x_hi = high(data).spec_add(reach);
    let steps = if n_points - 1 > 1 {
        n_points - 1
    } else {
        1
    };
    x_lo.spec_add(
        x_hi.spec_sub(x_lo).spec_mul(Float::spec_from_usize(i as usize)).spec_div(
            Float::spec_from_usize(steps as usize),
        ),
    )
}

/// Whether a density can be estimated: there are at least two values and at
/// least one position, and the values are not all the same.
pub open spec fn can_estimate(data: Seq<Float>, n_points: int) -> bool {
    data.len() >= 2 && n_points > 0 && !deviation(data).spec_le(Float::from_bits(ZERO_BITS))
}

/// The bandwidth, the norm factor and the grid of a Gaussian kernel density
/// estimate of `data` at `n_points` positions, or `None` for fewer than two
/// values, for no positions, and for values without spread.
///
/// `shrink` is `n^(-0.2)` for `n` values.
pub fn kde_plan(data: &[Float], n_points: usize, shrink: Float) -> (r: Option<KdePlan>)
    ensures
        r.is_some() <==> can_estimate(data@, n_points as int),
        r.is_some() ==> {
            let plan = r.unwrap();
            &&& plan.bandwidth == silverman_bandwidth(data@, shrink)
            &&& plan.norm_factor == kernel_norm(plan.bandwidth, data@.len())
            &&& plan.xs@.len() == n_points
            &&& forall|i: int|
                0 <= i < n_points ==> #[trigger] plan.xs@[i] == grid_position(
                    data@,
                    plan.bandwidth,
                    n_points as int,
                    i,
                )
        },
{
    if data.len() < 2 || n_points == 0 {
        return None;
    }
    let sd = match std_dev(data) {
        Some(sd) => sd,
        None => {
            return None;
        },
    };
    if sd.le(Float::from_bits(ZERO_BITS)) {
        return None;
    }
    let n = Float::from_usize(data.len());
    let h = Float::from_bits(SILVERMAN_FACTOR_BITS).mul(sd).mul(shrink);
    let (min_val, max_val) = match extent(data) {
        Some(pair) => pair,
        None => {
            return None;
        },
    };
    let reach = Float::from_bits(GRID_REACH_BITS).mul(h);
    let x_lo = min_val.sub(reach);
    let x_hi = max_val.add(reach);
    let norm_factor = Float::from_bits(ONE_BITS).div(
        h.mul(Float::from_bits(TWO_BITS).mul(Float::from_bits(PI_BITS)).sqrt()).mul(n),
    );
    let steps: usize = if n_points - 1 > 1 {
        n_points - 1
    } else {
        1
    };
    let divisor = Float::from_usize(steps);
    let mut xs: Vec<Float> = Vec::new();
    let mut i: usize = 0;
    while i < n_points
        invariant
            i <= n_points,
            data@.len() >= 2,
            x_lo == low(data@).spec_sub(Float::from_bits(GRID_REACH_BITS).spec_mul(h)),
            x_hi == high(data@).spec_add(Float::from_bits(GRID_REACH_BITS).spec_mul(h)),
            steps == if n_points - 1 > 1 {
                n_points - 1
            } else {
                1
            },
            divisor == Float::spec_from_usize(steps),
            xs@.len() == i,
            forall|k: int|
                0 <= k < i ==> #[trigger] xs@[k] == grid_position(data@, h, n_points as int, k),
        decreases n_points - i,
    {
        xs.push(x_lo.add(x_hi.sub(x_lo).mul(Float::from_usize(i)).div(divisor)));
        i += 1;
    }
    Some(KdePlan { bandwidth: h, norm_factor, xs })
}

/// The exponents of the Gaussian kernels at position `x`: for each value,
/// minus half the square of its distance from `x` in bandwidths.
pub open spec fn kernel_exponents(data: Seq<Float>, x: Float, h: Float) -> Seq<Float> {
    data.map_values(
        |xi: Float|
            {
                let z = x.spec_sub(xi).spec_div(h);
                Float::from_bits(MINUS_HALF_BITS).spec_mul(z).spec_mul(z)
            },
    )
}

/// The exponents of the Gaussian kernels of `data` at position `x`, for the
/// bandwidth `h`. The kernel of a value is the exponential of its exponent.
pub fn kde_exponents(data: &[Float], x: Float, h: Float) -> (r: Vec<Float>)
    ensures
        r@ == kernel_exponents(data@, x, h),
{
    let n = data.len();
    let mut out: Vec<Float> = Vec::new();
    let mut i: usize = 0;
    while i < n
        invariant
            i <= n,
            n == data@.len(),
            out@.len() == i,
            forall|k: int| 0 <= k < i ==> out@[k] == kernel_exponents(data@, x, h)[k],
        decreases n - i,
    {
        let z = x.sub(data[i]).div(h);
        out.push(Float::from_bits(MINUS_HALF_BITS).mul(z).mul(z));
        i += 1;
    }
    assert(out@ =~= kernel_exponents(data@, x, h));
    out
}

/// The sum of the kernels, each times the norm factor, added up from zero in
/// order.
pub open spec fn weighted_total(norm_factor: Float, kernels: Seq<Float>) -> Float
    decreases kernels.len(),
{
    if kernels.len() == 0 {
        Float::from_bits(ZERO_BITS)
    } else {
        weighted_total(norm_factor, kernels.drop_last()).spec_add(
            norm_factor.spec_mul(kernels.last()),
        )
    }
}

/// The density at one position: the sum of the kernels of all values there,
/// each times the norm factor.
pub fn kde_density(norm_factor: Float, kernels: &[Float]) -> (r: Float)
    ensures
        r == weighted_total(norm_factor, kernels@),
{
    let n = kernels.len();
    let mut acc = Float::from_bits(ZERO_BITS);
    let mut i: usize = 0;
    while i < n
        invariant
            i <= n,
            n == kernels@.len(),
            acc == weighted_total(norm_factor, kernels@.take(i as int)),
        decreases n - i,
    {
        assert(kernels@.take(i + 1).drop_last() =~= kernels@.take(i as int));
        acc = acc.add(norm_factor.mul(kernels[i]));
        i += 1;
    }
    assert(kernels@.take(n as int) =~= kernels@);
    acc
}

/// The exponentials of the given numbers.
pub open spec fn exponentials(exponents: Seq<Float>) -> Seq<Float> {
    exponents.map_values(|e: Float| e.spec_exp())
}

/// The density of a Gaussian kernel estimate of `data` at position `x`, for
/// the bandwidth `h` and the norm factor `norm`.
pub open spec fn density_at(data: Seq<Float>, x: Float, h: Float, norm: Float) -> Float {
    weighted_total(norm, exponentials(kernel_exponents(data, x, h)))
}

/// `n` to the power -0.2.
pub open spec fn bandwidth_shrink(n: nat) -> Float {
    Float::spec_from_usize(n as usize).spec_powf(Float::from_bits(MINUS_FIFTH_BITS))
}

/// The Gaussian kernel density estimate of `data` at `n_points` positions,
/// or `None` for fewer than two values, for no positions, and for values
/// without spread.
///
/// The bandwidth follows Silverman's rule, `1.06 σ n^(-0.2)`. The positions
/// are spread evenly from three bandwidths below the smallest value to three
/// above the largest. The density at a position is the sum of the Gaussian
/// kernels of all values there, each times `1 / (h √(2π) n)`.
pub fn gaussian_kde(data: &[Float], n_points: usize) -> (r: Option<KdeResult>)
    ensures
        r.is_some() <==> can_estimate(data@, n_points as int),
        r.is_some() ==> {
            let kde = r.unwrap();
            let h = silverman_bandwidth(data@, bandwidth_shrink(data@.len()));
            &&& kde.xs@.len() == n_points
            &&& kde.ys@.len() == n_points
            &&& forall|i: int|
                0 <= i < n_points ==> #[trigger] kde.xs@[i] == grid_position(
                    data@,
                    h,
                    n_points as int,
                    i,
                )
            &&& forall|i: int|
                0 <= i < n_points ==> #[trigger] kde.ys@[i] == density_at(
                    data@,
                    kde.xs@[i],
                    h,
                    kernel_norm(h, data@.len()),
                )
        },
{
    let shrink = Float::from_usize(data.len()).powf(Float::from_bits(MINUS_FIFTH_BITS));
    let plan = match kde_plan(data, n_points, shrink) {
        Some(plan) => plan,
        None => {
            return None;
        },
    };
    let mut ys: Vec<Float> = Vec::new();
    let mut i: usize = 0;
    while i < n_points
        invariant
            i <= n_points,
            plan.xs@.len() == n_points,
            ys@.len() == i,
            forall|k: int|
                0 <= k < i ==> #[trigger] ys@[k] == density_at(
                    data@,
                    plan.xs@[k],
                    plan.bandwidth,
                    plan.norm_factor,
                ),
        decreases n_points - i,
    {
        let exponents = kde_exponents(data, plan.xs[i], plan.bandwidth);
        let m = exponents.len();
        let mut kernels: Vec<Float> = Vec::new();
        let mut j: usize = 0;
        while j < m
            invariant
                j <= m,
                m == exponents@.len(),
                kernels@.len() == j,
                forall|k: int| 0 <= k < j ==> kernels@[k] == exponentials(exponents@)[k],
            decreases m - j,
        {
            kernels.push(exponents[j].exp());
            j += 1;
        }
        assert(kernels@ =~= exponentials(exponents@));
        ys.push(kde_density(plan.norm_factor, kernels.as_slice()));
        i += 1;
    }
    Some(KdeResult { xs: plan.xs, ys })
}

} // verus!
