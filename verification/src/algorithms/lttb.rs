//! Largest-Triangle-Three-Buckets downsampling (Steinarsson, 2013).
//!
//! The first and the last point are kept. The points between them are cut
//! into as many buckets as points are still wanted, and from each bucket the
//! point is taken that spans the largest triangle with the point taken before
//! it and the centroid of the bucket after it.

use crate::algorithms::nearest::sorted_by_x;
use crate::model::data::DataPoint;
use crate::number::float::{Float, ONE_BITS, ZERO_BITS};
use vstd::prelude::*;
use vstd::slice::slice_to_vec;

verus! {

/// Bit pattern of -1, below every triangle area.
pub const MINUS_ONE_BITS: u64 = 0xbff0_0000_0000_0000;

/// The number of interior points per bucket: `(n - 2) / (t - 2)` for `n`
/// points and a threshold of `t`.
pub open spec fn bucket_width(n: int, t: int) -> Float {
    Float::spec_from_usize((n - 2) as usize).spec_div(Float::spec_from_usize((t - 2) as usize))
}

/// Where bucket `i` starts by the width alone: `i` widths and one, rounded
/// down.
pub open spec fn raw_edge(width: Float, i: int) -> int {
    Float::spec_from_usize(i as usize).spec_mul(width).spec_add(
        Float::from_bits(ONE_BITS),
    ).spec_floor().spec_to_usize() as int
}

/// `v` moved into `[lo, hi]`.
pub open spec fn clamp_index(v: int, lo: int, hi: int) -> int {
    if v < lo {
        lo
    } else if v > hi {
        hi
    } else {
        v
    }
}

/// The index at which bucket `i` starts, which is where bucket `i - 1` ends.
/// It is the raw edge, kept from falling before the edge below it and from
/// leaving the interior of the data, so that the buckets tile the interior
/// in order.
pub open spec fn edge(n: int, t: int, i: int) -> int
    decreases i,
{
    if i <= 0 {
        clamp_index(raw_edge(bucket_width(n, t), 0), 1, n - 1)
    } else {
        clamp_index(raw_edge(bucket_width(n, t), i), edge(n, t, i - 1), n - 1)
    }
}

/// Where the range ends whose centroid stands for the bucket after bucket
/// `i`. After the last bucket that range is the last point alone.
pub open spec fn centroid_end(n: int, t: int, i: int) -> int {
    clamp_index(raw_edge(bucket_width(n, t), i + 2), edge(n, t, i + 1), n)
}

/// The sum of the `x` of the points from `from` up to `to`, added up from
/// zero in order.
pub open spec fn sum_x(data: Seq<DataPoint>, from: int, to: int) -> Float
    decreases to - from,
{
    if to <= from {
        Float::from_bits(ZERO_BITS)
    } else {
        sum_x(data, from, to - 1).spec_add(data[to - 1].x)
    }
}

/// The sum of the `y` of the points from `from` up to `to`, added up from
/// zero in order.
pub open spec fn sum_y(data: Seq<DataPoint>, from: int, to: int) -> Float
    decreases to - from,
{
    if to <= from {
        Float::from_bits(ZERO_BITS)
    } else {
        sum_y(data, from, to - 1).spec_add(data[to - 1].y)
    }
}

/// The centroid of the points from `from` up to `to`.
pub open spec fn centroid(data: Seq<DataPoint>, from: int, to: int) -> DataPoint {
    let count = Float::spec_from_usize(
        (if to > from {
            to - from
        } else {
            0
        }) as usize,
    );
    DataPoint { x: sum_x(data, from, to).spec_div(count), y: sum_y(data, from, to).spec_div(count) }
}

/// Twice the area of the triangle `a`, `b`, `c`.
pub open spec fn triangle_area(a: DataPoint, b: DataPoint, c: DataPoint) -> Float {
    a.x.spec_sub(c.x).spec_mul(b.y.spec_sub(a.y)).spec_sub(
        a.x.spec_sub(b.x).spec_mul(c.y.spec_sub(a.y)),
    ).spec_abs()
}

/// The largest triangle area that the points from `from` up to `to` span
/// with `a` and `c`, and the first index that reaches it; -1 and `from`
/// where there is no point or no area that is a number.
pub open spec fn largest_triangle(
    data: Seq<DataPoint>,
    a: DataPoint,
    c: DataPoint,
    from: int,
    to: int,
) -> (Float, int)
    decreases to - from,
{
    if to <= from {
        (Float::from_bits(MINUS_ONE_BITS), from)
    } else {
        let best = largest_triangle(data, a, c, from, to - 1);
        let area = triangle_area(a, data[to - 1], c);
        if area.spec_gt(best.0) {
            (area, to - 1)
        } else {
            best
        }
    }
}

/// The index of the point taken from bucket `i`.
pub open spec fn pick(data: Seq<DataPoint>, t: int, i: int) -> int
    decreases i,
{
    let n = data.len() as int;
    let a = if i <= 0 {
        data[0]
    } else {
        data[pick(data, t, i - 1)]
    };
    let c = centroid(data, edge(n, t, i + 1), centroid_end(n, t, i));
    largest_triangle(data, a, c, edge(n, t, i), edge(n, t, i + 1)).1
}

/// The indices of the points that the downsampling keeps, in order.
pub open spec fn kept_indices(data: Seq<DataPoint>, t: int) -> Seq<int> {
    let n = data.len() as int;
    if t >= n || t <= 0 {
        Seq::new(data.len(), |i: int| i)
    } else if t == 1 {
        seq![0int]
    } else if t == 2 {
        seq![0int, n - 1]
    } else {
        Seq::new(
            t as nat,
            |i: int|
                if i == 0 {
                    0
                } else if i == t - 1 {
                    n - 1
                } else {
                    pick(data, t, i - 1)
                },
        )
    }
}

/// `data` downsampled to `t` points.
pub open spec fn downsampled(data: Seq<DataPoint>, t: int) -> Seq<DataPoint> {
    kept_indices(data, t).map_values(|i: int| data[i])
}

/// The edges ascend and stay within the interior of the data.
pub proof fn lemma_edges_ascend(n: int, t: int, i: int)
    requires
        n >= 2,
        i >= 0,
    ensures
        1 <= edge(n, t, i) <= n - 1,
        edge(n, t, i) <= edge(n, t, i + 1),
        edge(n, t, i + 1) <= centroid_end(n, t, i) <= n,
    decreases i,
{
    if i > 0 {
        lemma_edges_ascend(n, t, i - 1);
    }
    assert(1 <= edge(n, t, i) <= n - 1);
    assert(edge(n, t, i) <= edge(n, t, i + 1) <= n - 1);
}

/// The first index of the largest triangle lies in the range that was
/// searched, or is its start where the range is empty.
pub proof fn lemma_largest_triangle_in_range(
    data: Seq<DataPoint>,
    a: DataPoint,
    c: DataPoint,
    from: int,
    to: int,
)
    ensures
        from <= largest_triangle(data, a, c, from, to).1,
        to > from ==> largest_triangle(data, a, c, from, to).1 < to,
        to <= from ==> largest_triangle(data, a, c, from, to).1 == from,
    decreases to - from,
{
    if to > from {
        lemma_largest_triangle_in_range(data, a, c, from, to - 1);
    }
}

/// No point of the range spans a larger triangle than the one that was
/// found, and the point that was found spans it. The largest area is a
/// number, never a NaN.
pub proof fn lemma_largest_triangle_is_largest(
    data: Seq<DataPoint>,
    a: DataPoint,
    c: DataPoint,
    from: int,
    to: int,
)
    ensures
        !largest_triangle(data, a, c, from, to).0.spec_is_nan(),
        forall|j: int|
            from <= j < to ==> !triangle_area(a, #[trigger] data[j], c).spec_gt(
                largest_triangle(data, a, c, from, to).0,
            ),
        largest_triangle(data, a, c, from, to).0 == Float::from_bits(MINUS_ONE_BITS)
            || largest_triangle(data, a, c, from, to).0 == triangle_area(
            a,
            data[largest_triangle(data, a, c, from, to).1],
            c,
        ),
    decreases to - from,
{
    if to > from {
        lemma_largest_triangle_is_largest(data, a, c, from, to - 1);
    }
}

/// The point taken from a bucket lies in that bucket, and so within the
/// interior of the data.
pub proof fn lemma_pick_in_bucket(data: Seq<DataPoint>, t: int, i: int)
    requires
        data.len() >= 2,
        i >= 0,
    ensures
        edge(data.len() as int, t, i) <= pick(data, t, i) <= edge(data.len() as int, t, i + 1),
        1 <= pick(data, t, i) <= data.len() - 1,
        i > 0 ==> pick(data, t, i - 1) <= pick(data, t, i),
{
    let n = data.len() as int;
    lemma_edges_ascend(n, t, i);
    lemma_edges_ascend(n, t, i + 1);
    let a = if i <= 0 {
        data[0]
    } else {
        data[pick(data, t, i - 1)]
    };
    let c = centroid(data, edge(n, t, i + 1), centroid_end(n, t, i));
    lemma_largest_triangle_in_range(data, a, c, edge(n, t, i), edge(n, t, i + 1));
    if i > 0 {
        let a0 = if i - 1 <= 0 {
            data[0]
        } else {
            data[pick(data, t, i - 2)]
        };
        let c0 = centroid(data, edge(n, t, i), centroid_end(n, t, i - 1));
        lemma_largest_triangle_in_range(data, a0, c0, edge(n, t, i - 1), edge(n, t, i));
        lemma_edges_ascend(n, t, i - 1);
    }
}

/// The kept indices ascend and are indices of the data.
pub proof fn lemma_kept_indices_ascend(data: Seq<DataPoint>, t: int)
    ensures
        forall|i: int|
            0 <= i < kept_indices(data, t).len() ==> 0 <= #[trigger] kept_indices(data, t)[i]
                < data.len(),
        forall|i: int, j: int|
            0 <= i <= j < kept_indices(data, t).len() ==> #[trigger] kept_indices(data, t)[i]
                <= #[trigger] kept_indices(data, t)[j],
{
    let n = data.len() as int;
    let kept = kept_indices(data, t);
    if 3 <= t < n {
        assert forall|i: int| 0 <= i < t - 2 implies 1 <= #[trigger] pick(data, t, i) <= n - 1 by {
            lemma_pick_in_bucket(data, t, i);
        }
        assert forall|i: int, j: int| 0 <= i <= j < t - 2 implies #[trigger] pick(data, t, i)
            <= #[trigger] pick(data, t, j) by {
            lemma_picks_ascend(data, t, i, j);
        }
        assert forall|i: int, j: int| 0 <= i <= j < kept.len() implies #[trigger] kept[i]
            <= #[trigger] kept[j] by {
            if i > 0 && j < t - 1 {
                assert(pick(data, t, i - 1) <= pick(data, t, j - 1));
            } else if i > 0 {
                if i < t - 1 {
                    assert(1 <= pick(data, t, i - 1) <= n - 1);
                }
            } else if 0 < j < t - 1 {
                assert(1 <= pick(data, t, j - 1) <= n - 1);
            }
        }
        assert forall|i: int| 0 <= i < kept.len() implies 0 <= #[trigger] kept[i] < n by {
            if 0 < i < t - 1 {
                assert(1 <= pick(data, t, i - 1) <= n - 1);
            }
        }
    }
}

proof fn lemma_picks_ascend(data: Seq<DataPoint>, t: int, i: int, j: int)
    requires
        data.len() >= 2,
        0 <= i <= j,
    ensures
        pick(data, t, i) <= pick(data, t, j),
    decreases j - i,
{
    if i < j {
        lemma_picks_ascend(data, t, i, j - 1);
        lemma_pick_in_bucket(data, t, j);
    }
}

/// Downsampling to a threshold between 2 and the number of points gives
/// exactly that many points, the first and the last of which are the first
/// and the last of the data.
pub proof fn lemma_downsampled_keeps_ends(data: Seq<DataPoint>, t: int)
    requires
        2 <= t <= data.len(),
    ensures
        downsampled(data, t).len() == t,
        downsampled(data, t)[0] == data[0],
        downsampled(data, t).last() == data.last(),
{
}

/// Downsampling keeps the order of the points: data in ascending order of
/// `x` stays so.
pub proof fn lemma_downsampled_keeps_order(data: Seq<DataPoint>, t: int)
    requires
        sorted_by_x(data),
    ensures
        sorted_by_x(downsampled(data, t)),
{
    lemma_kept_indices_ascend(data, t);
    let kept = kept_indices(data, t);
    let out = downsampled(data, t);
    assert forall|i: int, j: int| 0 <= i <= j < out.len() implies (#[trigger] out[i]).x.spec_le(
        (#[trigger] out[j]).x,
    ) by {
        assert(kept[i] <= kept[j]);
        assert(data[kept[i]].x.spec_le(data[kept[j]].x));
    }
}

/// Where bucket `i` starts by the width alone.
fn raw_edge_at(width: Float, i: usize) -> (r: usize)
    ensures
        r == raw_edge(width, i as int),
{
    Float::from_usize(i).mul(width).add(Float::from_bits(ONE_BITS)).floor().to_usize()
}

fn clamp_to(v: usize, lo: usize, hi: usize) -> (r: usize)
    ensures
        r == clamp_index(v as int, lo as int, hi as int),
{
    if v < lo {
        lo
    } else if v > hi {
        hi
    } else {
        v
    }
}

/// The centroid of the points from `from` up to `to`.
fn centroid_of(data: &[DataPoint], from: usize, to: usize) -> (r: DataPoint)
    requires
        to <= data@.len(),
    ensures
        r == centroid(data@, from as int, to as int),
{
    let mut sx = Float::from_bits(ZERO_BITS);
    let mut sy = Float::from_bits(ZERO_BITS);
    let mut j: usize = from;
    while j < to
        invariant
            to <= data@.len(),
            from <= j,
            j <= to || j == from,
            sx == sum_x(data@, from as int, j as int),
            sy == sum_y(data@, from as int, j as int),
        decreases to - j,
    {
        sx = sx.add(data[j].x);
        sy = sy.add(data[j].y);
        j += 1;
    }
    let count = if to > from {
        to - from
    } else {
        0
    };
    let divisor = Float::from_usize(count);
    DataPoint { x: sx.div(divisor), y: sy.div(divisor) }
}

/// The first index from `from` up to `to` whose point spans the largest
/// triangle with `a` and `c`.
fn largest_triangle_index(data: &[DataPoint], a: DataPoint, c: DataPoint, from: usize, to: usize) -> (r:
    usize)
    requires
        to <= data@.len(),
    ensures
        r == largest_triangle(data@, a, c, from as int, to as int).1,
{
    let mut max_area = Float::from_bits(MINUS_ONE_BITS);
    let mut max_area_point: usize = from;
    let mut idx: usize = from;
    while idx < to
        invariant
            to <= data@.len(),
            from <= idx,
            idx <= to || idx == from,
            (max_area, max_area_point as int) == largest_triangle(
                data@,
                a,
                c,
                from as int,
                idx as int,
            ),
        decreases to - idx,
    {
        let b = data[idx];
        let area = a.x.sub(c.x).mul(b.y.sub(a.y)).sub(a.x.sub(b.x).mul(c.y.sub(a.y))).abs();
        if area.gt(max_area) {
            max_area = area;
            max_area_point = idx;
        }
        idx += 1;
    }
    max_area_point
}

/// Downsamples `data`, which is meant to be sorted by `x`, to `threshold`
/// points.
///
/// A threshold of zero, or one that the data does not exceed, returns the
/// data unchanged. A threshold of 1 returns the first point and a threshold
/// of 2 the first and the last. Otherwise the result has `threshold` points:
/// the first, one from each bucket, and the last, in the order of the data.
pub fn lttb_downsample(data: &[DataPoint], threshold: usize) -> (sampled: Vec<DataPoint>)
    ensures
        sampled@ == downsampled(data@, threshold as int),
        threshold == 0 || threshold >= data@.len() ==> sampled@ == data@,
        2 <= threshold <= data@.len() ==> sampled@.len() == threshold && sampled@[0] == data@[0]
            && sampled@.last() == data@.last(),
        sorted_by_x(data@) ==> sorted_by_x(sampled@),
{
    let n = data.len();
    proof {
        if sorted_by_x(data@) {
            lemma_downsampled_keeps_order(data@, threshold as int);
        }
    }
    if threshold >= n || threshold == 0 {
        let all = slice_to_vec(data);
        assert(all@ =~= downsampled(data@, threshold as int));
        return all;
    }
    let mut sampled: Vec<DataPoint> = Vec::new();
    sampled.push(data[0]);
    if threshold == 1 {
        assert(sampled@ =~= downsampled(data@, threshold as int));
        return sampled;
    }
    if threshold == 2 {
        sampled.push(data[n - 1]);
        assert(sampled@ =~= downsampled(data@, threshold as int));
        return sampled;
    }
    let ghost t = threshold as int;
    let width = Float::from_usize(n - 2).div(Float::from_usize(threshold - 2));
    let mut start = clamp_to(raw_edge_at(width, 0), 1, n - 1);
    let mut point_index: usize = 0;
    let mut i: usize = 0;
    while i < threshold - 2
        invariant
            3 <= threshold < n,
            n == data@.len(),
            t == threshold,
            i <= threshold - 2,
            width == bucket_width(n as int, t),
            start == edge(n as int, t, i as int),
            point_index < n,
            i > 0 ==> point_index == pick(data@, t, i - 1),
            i == 0 ==> point_index == 0,
            sampled@.len() == i + 1,
            sampled@[0] == data@[0],
            forall|k: int| 0 < k <= i ==> sampled@[k] == data@[pick(data@, t, k - 1)],
        decreases threshold - 2 - i,
    {
        proof {
            lemma_edges_ascend(n as int, t, i as int);
            lemma_pick_in_bucket(data@, t, i as int);
        }
        let end = clamp_to(raw_edge_at(width, i + 1), start, n - 1);
        let avg_end = clamp_to(raw_edge_at(width, i + 2), end, n);
        let c = centroid_of(data, end, avg_end);
        let a = data[point_index];
        let best = largest_triangle_index(data, a, c, start, end);
        sampled.push(data[best]);
        point_index = best;
        start = end;
        i += 1;
    }
    sampled.push(data[n - 1]);
    assert(sampled@ =~= downsampled(data@, threshold as int));
    sampled
}

} // verus!
