//! M4 downsampling (Jugel et al., 2014): the first, the last, the lowest and
//! the highest point of every pixel column.

use crate::algorithms::nearest::sorted_by_x;
use crate::model::data::DataPoint;
use crate::number::float::Float;
use vstd::prelude::*;
use vstd::slice::slice_to_vec;

verus! {

/// The width of the data along `x`: from the first point to the last.
pub open spec fn x_range(data: Seq<DataPoint>) -> Float {
    data.last().x.spec_sub(data[0].x)
}

/// Where column `b` of `n_pixels` columns of equal width starts.
pub open spec fn column_start(data: Seq<DataPoint>, n_pixels: int, b: int) -> Float {
    let width = x_range(data).spec_div(Float::spec_from_usize(n_pixels as usize));
    data[0].x.spec_add(Float::spec_from_usize(b as usize).spec_mul(width))
}

/// The first index from `from` on whose point does not lie left of `bound`,
/// or the number of points where every point from `from` on does.
pub open spec fn first_not_left_of(data: Seq<DataPoint>, bound: Float, from: int) -> int
    decreases data.len() - from,
{
    if from >= data.len() {
        data.len() as int
    } else if data[from].x.spec_lt(bound) {
        first_not_left_of(data, bound, from + 1)
    } else {
        from
    }
}

/// The index at which column `b` ends and the next one begins. A column
/// takes the points that follow those of the column before it and lie left
/// of the start of the next column; the last column takes all that are left.
/// So the columns cut the data into consecutive runs.
pub open spec fn column_end(data: Seq<DataPoint>, n_pixels: int, b: int) -> int
    decreases b + 1,
{
    if b < 0 {
        0
    } else if b >= n_pixels - 1 {
        data.len() as int
    } else {
        first_not_left_of(
            data,
            column_start(data, n_pixels, b + 1),
            column_end(data, n_pixels, b - 1),
        )
    }
}

/// The first index from `from` up to `to` whose `y` no other in the range
/// is less than.
pub open spec fn lowest(data: Seq<DataPoint>, from: int, to: int) -> int
    decreases to - from,
{
    if to <= from + 1 {
        from
    } else if data[lowest(data, from, to - 1)].y.spec_gt(data[to - 1].y) {
        to - 1
    } else {
        lowest(data, from, to - 1)
    }
}

/// The last index from `from` up to `to` whose `y` no other in the range is
/// greater than.
pub open spec fn highest(data: Seq<DataPoint>, from: int, to: int) -> int
    decreases to - from,
{
    if to <= from + 1 {
        from
    } else if data[highest(data, from, to - 1)].y.spec_gt(data[to - 1].y) {
        highest(data, from, to - 1)
    } else {
        to - 1
    }
}

/// `s` with `p` put in from the right, past every trailing point that it
/// lies left of.
pub open spec fn insert_by_x(s: Seq<DataPoint>, p: DataPoint) -> Seq<DataPoint>
    decreases s.len(),
{
    if s.len() > 0 && p.x.spec_lt(s.last().x) {
        insert_by_x(s.drop_last(), p).push(s.last())
    } else {
        s.push(p)
    }
}

/// The four points in ascending order of `x`, points of equal `x` in the
/// order given.
pub open spec fn four_by_x(a: DataPoint, b: DataPoint, c: DataPoint, d: DataPoint) -> Seq<
    DataPoint,
> {
    insert_by_x(insert_by_x(insert_by_x(seq![a], b), c), d)
}

/// The points that stand for the run from `from` up to `to`: its first, its
/// last, its lowest and its highest point, in ascending order of `x`. None
/// for an empty run.
pub open spec fn column_points(data: Seq<DataPoint>, from: int, to: int) -> Seq<DataPoint> {
    if to <= from {
        Seq::empty()
    } else {
        four_by_x(
            data[from],
            data[to - 1],
            data[lowest(data, from, to)],
            data[highest(data, from, to)],
        )
    }
}

/// `out` with `p` appended, unless `p` coincides with the last point of
/// `out`.
pub open spec fn emit(out: Seq<DataPoint>, p: DataPoint) -> Seq<DataPoint> {
    if out.len() > 0 && out.last().spec_coincides(p) {
        out
    } else {
        out.push(p)
    }
}

/// `out` with the points of `pts` emitted one after the other.
pub open spec fn emit_all(out: Seq<DataPoint>, pts: Seq<DataPoint>) -> Seq<DataPoint>
    decreases pts.len(),
{
    if pts.len() == 0 {
        out
    } else {
        emit(emit_all(out, pts.drop_last()), pts.last())
    }
}

/// The points emitted for the first `b` columns.
pub open spec fn columns_upto(data: Seq<DataPoint>, n_pixels: int, b: int) -> Seq<DataPoint>
    decreases b,
{
    if b <= 0 {
        Seq::empty()
    } else {
        emit_all(
            columns_upto(data, n_pixels, b - 1),
            column_points(
                data,
                column_end(data, n_pixels, b - 2),
                column_end(data, n_pixels, b - 1),
            ),
        )
    }
}

/// Whether the data has no width along `x`: its last point lies at the `x`
/// of its first, or left of it.
pub open spec fn is_flat_along_x(data: Seq<DataPoint>) -> bool {
    data.last().x.spec_le(data[0].x)
}

/// Whether the data is returned as it is: it has no more than four points
/// per column, or it has no width along `x`.
pub open spec fn is_passed_through(data: Seq<DataPoint>, n_pixels: int) -> bool {
    data.len() <= 4 * n_pixels || is_flat_along_x(data)
}

/// `data` reduced to at most four points for each of `n_pixels` columns.
pub open spec fn reduced(data: Seq<DataPoint>, n_pixels: int) -> Seq<DataPoint> {
    if data.len() == 0 || n_pixels <= 0 {
        Seq::empty()
    } else if is_passed_through(data, n_pixels) {
        data
    } else {
        columns_upto(data, n_pixels, n_pixels)
    }
}

proof fn lemma_first_not_left_of_bounds(data: Seq<DataPoint>, bound: Float, from: int)
    requires
        0 <= from <= data.len(),
    ensures
        from <= first_not_left_of(data, bound, from) <= data.len(),
    decreases data.len() - from,
{
    if from < data.len() && data[from].x.spec_lt(bound) {
        lemma_first_not_left_of_bounds(data, bound, from + 1);
    }
}

/// The column ends ascend from 0 to the number of points.
pub proof fn lemma_column_ends_ascend(data: Seq<DataPoint>, n_pixels: int, b: int)
    requires
        b >= -1,
    ensures
        0 <= column_end(data, n_pixels, b) <= data.len(),
        b >= 0 ==> column_end(data, n_pixels, b - 1) <= column_end(data, n_pixels, b),
    decreases b + 1,
{
    if b >= 0 {
        lemma_column_ends_ascend(data, n_pixels, b - 1);
        if b < n_pixels - 1 {
            lemma_first_not_left_of_bounds(
                data,
                column_start(data, n_pixels, b + 1),
                column_end(data, n_pixels, b - 1),
            );
        }
    }
}

proof fn lemma_lowest_in_range(data: Seq<DataPoint>, from: int, to: int)
    requires
        from < to,
    ensures
        from <= lowest(data, from, to) < to,
        from <= highest(data, from, to) < to,
    decreases to - from,
{
    if to > from + 1 {
        lemma_lowest_in_range(data, from, to - 1);
    }
}

/// Among points whose `y` are all numbers, none lies lower than the lowest
/// and none higher than the highest.
pub proof fn lemma_lowest_and_highest(data: Seq<DataPoint>, from: int, to: int)
    requires
        0 <= from < to <= data.len(),
        forall|j: int| from <= j < to ==> !(#[trigger] data[j]).y.spec_is_nan(),
    ensures
        forall|j: int| from <= j < to ==> data[lowest(data, from, to)].y.spec_le((#[trigger] data[j]).y),
        forall|j: int|
            from <= j < to ==> data[highest(data, from, to)].y.spec_ge((#[trigger] data[j]).y),
    decreases to - from,
{
    lemma_lowest_in_range(data, from, to);
    if to > from + 1 {
        lemma_lowest_in_range(data, from, to - 1);
        lemma_lowest_and_highest(data, from, to - 1);
    }
}

proof fn lemma_insert_by_x_len(s: Seq<DataPoint>, p: DataPoint)
    ensures
        insert_by_x(s, p).len() == s.len() + 1,
    decreases s.len(),
{
    if s.len() > 0 && p.x.spec_lt(s.last().x) {
        lemma_insert_by_x_len(s.drop_last(), p);
    }
}

/// Putting a point into points in ascending order of `x` keeps them so, and
/// adds that point and no other.
proof fn lemma_insert_by_x_sorted(s: Seq<DataPoint>, p: DataPoint)
    requires
        sorted_by_x(s),
        !p.x.spec_is_nan(),
    ensures
        sorted_by_x(insert_by_x(s, p)),
        insert_by_x(s, p).len() == s.len() + 1,
        forall|i: int|
            0 <= i < s.len() + 1 ==> #[trigger] insert_by_x(s, p)[i] == p || s.contains(
                insert_by_x(s, p)[i],
            ),
    decreases s.len(),
{
    lemma_insert_by_x_len(s, p);
    let r = insert_by_x(s, p);
    if s.len() > 0 && p.x.spec_lt(s.last().x) {
        let front = s.drop_last();
        assert forall|i: int, j: int| 0 <= i <= j < front.len() implies (#[trigger] front[i]).x.spec_le(
            (#[trigger] front[j]).x,
        ) by {
            assert(front[i] == s[i] && front[j] == s[j]);
        }
        lemma_insert_by_x_sorted(front, p);
        let inner = insert_by_x(front, p);
        assert(r == inner.push(s.last()));
        assert forall|i: int| 0 <= i < r.len() implies #[trigger] r[i] == p || s.contains(r[i]) by {
            if i < inner.len() {
                assert(r[i] == inner[i]);
                if inner[i] != p {
                    let k = choose|k: int| 0 <= k < front.len() && front[k] == inner[i];
                    assert(s[k] == r[i]);
                }
            } else {
                assert(s[s.len() - 1] == r[i]);
            }
        }
        assert forall|i: int, j: int| 0 <= i <= j < r.len() implies (#[trigger] r[i]).x.spec_le(
            (#[trigger] r[j]).x,
        ) by {
            if j < inner.len() {
                assert(r[i] == inner[i] && r[j] == inner[j]);
            } else if i < inner.len() {
                assert(r[i] == inner[i]);
                if inner[i] != p {
                    let k = choose|k: int| 0 <= k < front.len() && front[k] == inner[i];
                    assert(s[k].x.spec_le(s[s.len() - 1].x));
                }
            } else {
                assert(s[s.len() - 1].x.spec_le(s[s.len() - 1].x));
            }
        }
    } else {
        assert(r == s.push(p));
        assert forall|i: int| 0 <= i < r.len() implies #[trigger] r[i] == p || s.contains(r[i]) by {
            if i < s.len() {
                assert(s[i] == r[i]);
            }
        }
        assert forall|i: int, j: int| 0 <= i <= j < r.len() implies (#[trigger] r[i]).x.spec_le(
            (#[trigger] r[j]).x,
        ) by {
            if j < s.len() {
                assert(r[i] == s[i] && r[j] == s[j]);
            } else if i < s.len() {
                assert(r[i] == s[i]);
                assert(s[i].x.spec_le(s[s.len() - 1].x));
            }
        }
    }
}

/// The points that stand for a run of sorted data are in ascending order of
/// `x`, and each is a point of the run.
proof fn lemma_column_points_sorted(data: Seq<DataPoint>, from: int, to: int)
    requires
        sorted_by_x(data),
        0 <= from <= to <= data.len(),
    ensures
        sorted_by_x(column_points(data, from, to)),
        column_points(data, from, to).len() <= 4,
        forall|i: int|
            0 <= i < column_points(data, from, to).len() ==> exists|k: int|
                from <= k < to && data[k] == #[trigger] column_points(data, from, to)[i],
{
    if to > from {
        lemma_lowest_in_range(data, from, to);
        let a = data[from];
        let b = data[to - 1];
        let c = data[lowest(data, from, to)];
        let d = data[highest(data, from, to)];
        assert(a.x.spec_le(a.x) && b.x.spec_le(b.x) && c.x.spec_le(c.x) && d.x.spec_le(d.x));
        let s1 = seq![a];
        let s2 = insert_by_x(s1, b);
        let s3 = insert_by_x(s2, c);
        let s4 = insert_by_x(s3, d);
        lemma_insert_by_x_sorted(s1, b);
        lemma_insert_by_x_sorted(s2, c);
        lemma_insert_by_x_sorted(s3, d);
        assert forall|i: int| 0 <= i < s4.len() implies exists|k: int|
            from <= k < to && data[k] == #[trigger] s4[i] by {
            let p = s4[i];
            if p == d {
                assert(data[highest(data, from, to)] == p);
            } else {
                assert(s3.contains(p));
                if p == c {
                    assert(data[lowest(data, from, to)] == p);
                } else {
                    let i3 = choose|k: int| 0 <= k < s3.len() && s3[k] == p;
                    assert(s3[i3] == c || s2.contains(s3[i3]));
                    assert(s2.contains(p));
                    if p == b {
                        assert(data[to - 1] == p);
                    } else {
                        let i2 = choose|k: int| 0 <= k < s2.len() && s2[k] == p;
                        assert(s2[i2] == b || s1.contains(s2[i2]));
                        assert(s1.contains(p));
                        assert(data[from] == p);
                    }
                }
            }
        }
    }
}

/// Emitting points keeps or appends: the result is the points before, then
/// some of the new ones in their order.
proof fn lemma_emit_all_sorted(out: Seq<DataPoint>, pts: Seq<DataPoint>)
    requires
        sorted_by_x(out),
        sorted_by_x(pts),
        forall|i: int, j: int|
            0 <= i < out.len() && 0 <= j < pts.len() ==> (#[trigger] out[i]).x.spec_le(
                (#[trigger] pts[j]).x,
            ),
    ensures
        sorted_by_x(emit_all(out, pts)),
        out.len() <= emit_all(out, pts).len() <= out.len() + pts.len(),
        forall|i: int|
            0 <= i < emit_all(out, pts).len() ==> out.contains(#[trigger] emit_all(out, pts)[i])
                || pts.contains(emit_all(out, pts)[i]),
    decreases pts.len(),
{
    if pts.len() > 0 {
        let front = pts.drop_last();
        assert forall|i: int, j: int| 0 <= i <= j < front.len() implies (#[trigger] front[i]).x.spec_le(
            (#[trigger] front[j]).x,
        ) by {
            assert(front[i] == pts[i] && front[j] == pts[j]);
        }
        assert forall|i: int, j: int| 0 <= i < out.len() && 0 <= j < front.len() implies (
        #[trigger] out[i]).x.spec_le((#[trigger] front[j]).x) by {
            assert(front[j] == pts[j]);
        }
        lemma_emit_all_sorted(out, front);
        let mid = emit_all(out, front);
        let r = emit_all(out, pts);
        let p = pts.last();
        assert(pts[pts.len() - 1] == p);
        assert forall|i: int| 0 <= i < r.len() implies out.contains(#[trigger] r[i])
            || pts.contains(r[i]) by {
            if i < mid.len() {
                assert(r[i] == mid[i]);
                if !out.contains(mid[i]) {
                    let k = choose|k: int| 0 <= k < front.len() && front[k] == mid[i];
                    assert(pts[k] == r[i]);
                }
            }
        }
        assert forall|i: int, j: int| 0 <= i <= j < r.len() implies (#[trigger] r[i]).x.spec_le(
            (#[trigger] r[j]).x,
        ) by {
            if j < mid.len() {
                assert(r[i] == mid[i] && r[j] == mid[j]);
            } else {
                assert(r[j] == p);
                if i < mid.len() {
                    assert(r[i] == mid[i]);
                    if out.contains(mid[i]) {
                        let k = choose|k: int| 0 <= k < out.len() && out[k] == mid[i];
                        assert(out[k].x.spec_le(pts[pts.len() - 1].x));
                    } else {
                        let k = choose|k: int| 0 <= k < front.len() && front[k] == mid[i];
                        assert(pts[k].x.spec_le(pts[pts.len() - 1].x));
                    }
                } else {
                    assert(pts[pts.len() - 1].x.spec_le(pts[pts.len() - 1].x));
                }
            }
        }
    }
}

/// What the first `b` columns emit from sorted data is in ascending order of
/// `x`, holds at most four points per column, and consists of points that
/// come before the end of column `b - 1`.
proof fn lemma_columns_upto_sorted(data: Seq<DataPoint>, n_pixels: int, b: int)
    requires
        sorted_by_x(data),
        0 <= b,
    ensures
        sorted_by_x(columns_upto(data, n_pixels, b)),
        columns_upto(data, n_pixels, b).len() <= 4 * b,
        forall|i: int|
            0 <= i < columns_upto(data, n_pixels, b).len() ==> exists|k: int|
                0 <= k < column_end(data, n_pixels, b - 1) && data[k] == #[trigger] columns_upto(
                    data,
                    n_pixels,
                    b,
                )[i],
    decreases b,
{
    if b > 0 {
        lemma_columns_upto_sorted(data, n_pixels, b - 1);
        lemma_column_ends_ascend(data, n_pixels, b - 1);
        lemma_column_ends_ascend(data, n_pixels, b - 2);
        let from = column_end(data, n_pixels, b - 2);
        let to = column_end(data, n_pixels, b - 1);
        let out = columns_upto(data, n_pixels, b - 1);
        let pts = column_points(data, from, to);
        lemma_column_points_sorted(data, from, to);
        assert forall|i: int, j: int| 0 <= i < out.len() && 0 <= j < pts.len() implies (
        #[trigger] out[i]).x.spec_le((#[trigger] pts[j]).x) by {
            let ki = choose|k: int| 0 <= k < from && data[k] == out[i];
            let kj = choose|k: int| from <= k < to && data[k] == pts[j];
            assert(data[ki].x.spec_le(data[kj].x));
        }
        lemma_emit_all_sorted(out, pts);
        let r = columns_upto(data, n_pixels, b);
        assert forall|i: int| 0 <= i < r.len() implies exists|k: int|
            0 <= k < to && data[k] == #[trigger] r[i] by {
            if out.contains(r[i]) {
                let e = choose|e: int| 0 <= e < out.len() && out[e] == r[i];
                let k = choose|k: int| 0 <= k < from && data[k] == out[e];
                assert(data[k] == r[i]);
            } else {
                let e = choose|e: int| 0 <= e < pts.len() && pts[e] == r[i];
                let k = choose|k: int| from <= k < to && data[k] == pts[e];
                assert(data[k] == r[i]);
            }
        }
    }
}

proof fn lemma_emit_all_len(out: Seq<DataPoint>, pts: Seq<DataPoint>)
    ensures
        out.len() <= emit_all(out, pts).len() <= out.len() + pts.len(),
    decreases pts.len(),
{
    if pts.len() > 0 {
        lemma_emit_all_len(out, pts.drop_last());
    }
}

/// The first `b` columns emit at most four points each.
pub proof fn lemma_columns_upto_len(data: Seq<DataPoint>, n_pixels: int, b: int)
    requires
        0 <= b,
    ensures
        columns_upto(data, n_pixels, b).len() <= 4 * b,
    decreases b,
{
    if b > 0 {
        lemma_columns_upto_len(data, n_pixels, b - 1);
        let from = column_end(data, n_pixels, b - 2);
        let to = column_end(data, n_pixels, b - 1);
        let pts = column_points(data, from, to);
        if to > from {
            let s1 = seq![data[from]];
            let s2 = insert_by_x(s1, data[to - 1]);
            let s3 = insert_by_x(s2, data[lowest(data, from, to)]);
            lemma_insert_by_x_len(s1, data[to - 1]);
            lemma_insert_by_x_len(s2, data[lowest(data, from, to)]);
            lemma_insert_by_x_len(s3, data[highest(data, from, to)]);
        }
        lemma_emit_all_len(columns_upto(data, n_pixels, b - 1), pts);
    }
}

/// Reducing data that has width along `x` leaves at most four points per
/// column.
pub proof fn lemma_reduced_len(data: Seq<DataPoint>, n_pixels: int)
    requires
        !(data.len() > 0 && n_pixels > 0 && data.len() > 4 * n_pixels && is_flat_along_x(data)),
    ensures
        reduced(data, n_pixels).len() <= 4 * n_pixels || reduced(data, n_pixels).len() == 0,
{
    if data.len() > 0 && n_pixels > 0 && !is_passed_through(data, n_pixels) {
        lemma_columns_upto_len(data, n_pixels, n_pixels);
    }
}

/// Reducing keeps the order of the points: data in ascending order of `x`
/// stays so.
pub proof fn lemma_reduced_keeps_order(data: Seq<DataPoint>, n_pixels: int)
    requires
        sorted_by_x(data),
    ensures
        sorted_by_x(reduced(data, n_pixels)),
{
    if data.len() > 0 && n_pixels > 0 && !is_passed_through(data, n_pixels) {
        lemma_columns_upto_sorted(data, n_pixels, n_pixels);
    }
}

fn scan_column(data: &[DataPoint], bound: Float, from: usize) -> (r: usize)
    requires
        from <= data@.len(),
    ensures
        r == first_not_left_of(data@, bound, from as int),
        from <= r <= data@.len(),
{
    let n = data.len();
    let mut r: usize = from;
    while r < n && data[r].x.lt(bound)
        invariant
            n == data@.len(),
            from <= r <= n,
            first_not_left_of(data@, bound, from as int) == first_not_left_of(
                data@,
                bound,
                r as int,
            ),
        decreases n - r,
    {
        r += 1;
    }
    r
}

fn lowest_index(data: &[DataPoint], from: usize, to: usize) -> (r: usize)
    requires
        from < to <= data@.len(),
    ensures
        r == lowest(data@, from as int, to as int),
        from <= r < to,
{
    let mut best: usize = from;
    let mut k: usize = from + 1;
    while k < to
        invariant
            from < k <= to <= data@.len(),
            from <= best < k,
            best == lowest(data@, from as int, k as int),
        decreases to - k,
    {
        if data[best].y.gt(data[k].y) {
            best = k;
        }
        k += 1;
    }
    best
}

fn highest_index(data: &[DataPoint], from: usize, to: usize) -> (r: usize)
    requires
        from < to <= data@.len(),
    ensures
        r == highest(data@, from as int, to as int),
        from <= r < to,
{
    let mut best: usize = from;
    let mut k: usize = from + 1;
    while k < to
        invariant
            from < k <= to <= data@.len(),
            from <= best < k,
            best == highest(data@, from as int, k as int),
        decreases to - k,
    {
        if !data[best].y.gt(data[k].y) {
            best = k;
        }
        k += 1;
    }
    best
}

fn insert_point(points: &mut Vec<DataPoint>, p: DataPoint)
    ensures
        final(points)@ == insert_by_x(old(points)@, p),
{
    let ghost s = points@;
    let mut j: usize = points.len();
    assert(s.take(j as int) =~= s);
    assert(insert_by_x(s, p) + s.skip(j as int) =~= insert_by_x(s, p));
    while j > 0 && p.x.lt(points[j - 1].x)
        invariant
            j <= s.len(),
            points@ == s,
            insert_by_x(s, p) == insert_by_x(s.take(j as int), p) + s.skip(j as int),
        decreases j,
    {
        proof {
            let head = s.take(j as int);
            assert(head.last() == s[j - 1]);
            assert(head.drop_last() =~= s.take(j - 1));
            assert(insert_by_x(s.take(j - 1), p).push(s[j - 1]) + s.skip(j as int)
                =~= insert_by_x(s.take(j - 1), p) + s.skip(j - 1));
        }
        j -= 1;
    }
    proof {
        let head = s.take(j as int);
        if j > 0 {
            assert(head.last() == s[j - 1]);
        }
        assert(insert_by_x(head, p) == head.push(p));
        assert(head.push(p) + s.skip(j as int) =~= s.insert(j as int, p));
    }
    points.insert(j, p);
}

fn emit_point(out: &mut Vec<DataPoint>, p: DataPoint)
    ensures
        final(out)@ == emit(old(out)@, p),
{
    let n = out.len();
    if n > 0 && out[n - 1].coincides(p) {
    } else {
        out.push(p);
    }
}

/// Reduces `data` to at most four points for each of `n_pixels` columns.
///
/// The range from the `x` of the first point to that of the last is cut into
/// `n_pixels` columns of equal width, and the data into the consecutive runs
/// that fall into them. Each run that is not empty gives its first, last,
/// lowest and highest point, in ascending order of `x`; a point that
/// coincides with the one emitted before it is left out.
///
/// Empty data, and any data for zero columns, gives no points. Data with no
/// more than four points per column, or without width along `x`, is returned
/// as it is.
pub fn m4_downsample(data: &[DataPoint], n_pixels: usize) -> (result: Vec<DataPoint>)
    ensures
        result@ == reduced(data@, n_pixels as int),
        data@.len() <= 4 * n_pixels ==> result@ == data@,
        data@.len() <= 4 * n_pixels || !is_flat_along_x(data@) ==> result@.len() <= 4 * n_pixels,
        data@.len() > 0 && data@[0].x.spec_lt(data@.last().x) ==> result@.len() <= 4 * n_pixels,
        sorted_by_x(data@) ==> sorted_by_x(result@),
{
    let n = data.len();
    let mut result: Vec<DataPoint> = Vec::new();
    proof {
        if sorted_by_x(data@) {
            lemma_reduced_keeps_order(data@, n_pixels as int);
        }
    }
    if n == 0 || n_pixels == 0 {
        if n == 0 {
            assert(result@ =~= data@);
        }
        return result;
    }
    if n / 4 < n_pixels || (n / 4 == n_pixels && n % 4 == 0) {
        return slice_to_vec(data);
    }
    let x_min = data[0].x;
    let x_max = data[n - 1].x;
    if x_max.le(x_min) {
        return slice_to_vec(data);
    }
    let width = x_max.sub(x_min).div(Float::from_usize(n_pixels));
    let ghost pixels = n_pixels as int;
    let mut from: usize = 0;
    let mut b: usize = 0;
    while b < n_pixels
        invariant
            b <= n_pixels,
            pixels == n_pixels,
            n == data@.len(),
            n > 0,
            x_min == data@[0].x,
            width == x_range(data@).spec_div(Float::spec_from_usize(n_pixels)),
            from <= n,
            from == column_end(data@, pixels, b - 1),
            result@ == columns_upto(data@, pixels, b as int),
        decreases n_pixels - b,
    {
        let to = if b == n_pixels - 1 {
            n
        } else {
            let bound = x_min.add(Float::from_usize(b + 1).mul(width));
            scan_column(data, bound, from)
        };
        assert(to == column_end(data@, pixels, b as int));
        let ghost before = result@;
        if to > from {
            let low = lowest_index(data, from, to);
            let high = highest_index(data, from, to);
            let mut pts: Vec<DataPoint> = Vec::new();
            pts.push(data[from]);
            assert(pts@ =~= seq![data@[from as int]]);
            insert_point(&mut pts, data[to - 1]);
            insert_point(&mut pts, data[low]);
            insert_point(&mut pts, data[high]);
            assert(pts@ == column_points(data@, from as int, to as int));
            let m = pts.len();
            let mut k: usize = 0;
            assert(pts@.take(0) =~= Seq::<DataPoint>::empty());
            while k < m
                invariant
                    k <= m,
                    m == pts@.len(),
                    result@ == emit_all(before, pts@.take(k as int)),
                decreases m - k,
            {
                assert(pts@.take(k + 1).drop_last() =~= pts@.take(k as int));
                emit_point(&mut result, pts[k]);
                k += 1;
            }
            assert(pts@.take(m as int) =~= pts@);
        }
        from = to;
        b += 1;
    }
    proof {
        lemma_columns_upto_len(data@, pixels, pixels);
    }
    result
}

} // verus!
