//! Finding the point of a series nearest to a position, for hover and
//! tooltips.

use crate::model::data::DataPoint;
use crate::number::float::Float;
use vstd::prelude::*;

verus! {

/// Whether the points are in ascending order of `x`. No `x` of such data is
/// a NaN.
pub open spec fn sorted_by_x(data: Seq<DataPoint>) -> bool {
    forall|i: int, j: int|
        0 <= i <= j < data.len() ==> (#[trigger] data[i]).x.spec_le((#[trigger] data[j]).x)
}

/// Whether `k` is where `target` would be put into the data: every point
/// before `k` lies left of `target`, and no point from `k` on does.
pub open spec fn is_insertion_index(data: Seq<DataPoint>, target: Float, k: int) -> bool {
    &&& 0 <= k <= data.len()
    &&& forall|i: int| 0 <= i < k ==> (#[trigger] data[i]).x.spec_lt(target)
    &&& forall|i: int| k <= i < data.len() ==> !(#[trigger] data[i]).x.spec_lt(target)
}

/// The distance along `x` between point `i` and `target`.
pub open spec fn distance(data: Seq<DataPoint>, target: Float, i: int) -> Float {
    data[i].x.spec_sub(target).spec_abs()
}

/// The nearer of the two neighbours of insertion index `k`: the point before
/// `k` unless the point at `k` is strictly closer. At either end of the data
/// there is only one neighbour.
pub open spec fn nearer_neighbour(data: Seq<DataPoint>, target: Float, k: int) -> int {
    if k <= 0 {
        0
    } else if k >= data.len() {
        data.len() - 1
    } else if distance(data, target, k).spec_lt(distance(data, target, k - 1)) {
        k
    } else {
        k - 1
    }
}

/// At most one index is an insertion index.
pub proof fn lemma_insertion_index_is_unique(data: Seq<DataPoint>, target: Float, a: int, b: int)
    requires
        is_insertion_index(data, target, a),
        is_insertion_index(data, target, b),
    ensures
        a == b,
{
    if a < b {
        assert(data[a].x.spec_lt(target));
    } else if b < a {
        assert(data[b].x.spec_lt(target));
    }
}

/// The index at which `target` would be put into sorted data, found by
/// bisection.
pub fn insertion_index(data: &[DataPoint], target: Float) -> (k: usize)
    requires
        sorted_by_x(data@),
    ensures
        is_insertion_index(data@, target, k as int),
{
    let mut lo: usize = 0;
    let mut hi: usize = data.len();
    while lo < hi
        invariant
            lo <= hi <= data@.len(),
            sorted_by_x(data@),
            forall|i: int| 0 <= i < lo ==> (#[trigger] data@[i]).x.spec_lt(target),
            forall|i: int| hi <= i < data@.len() ==> !(#[trigger] data@[i]).x.spec_lt(target),
        decreases hi - lo,
    {
        let mid = lo + (hi - lo) / 2;
        if data[mid].x.lt(target) {
            assert forall|i: int| 0 <= i < mid + 1 implies (#[trigger] data@[i]).x.spec_lt(
                target,
            ) by {
                assert(data@[i].x.spec_le(data@[mid as int].x));
            }
            lo = mid + 1;
        } else {
            assert forall|i: int| mid <= i < data@.len() implies !(#[trigger] data@[i]).x.spec_lt(
                target,
            ) by {
                assert(data@[mid as int].x.spec_le(data@[i].x));
            }
            hi = mid;
        }
    }
    lo
}

/// The point nearest to `target_x` along `x`, with its index, in data
/// sorted by `x`; `None` for empty data.
///
/// Only the two points next to the place where `target_x` would be put in are
/// candidates. Of two equally near ones the earlier is returned.
pub fn find_nearest_point(data: &[DataPoint], target_x: Float) -> (r: Option<(usize, &DataPoint)>)
    requires
        sorted_by_x(data@),
    ensures
        r.is_none() <==> data@.len() == 0,
        r.is_some() ==> {
            let (index, point) = r.unwrap();
            &&& index < data@.len()
            &&& *point == data@[index as int]
            &&& exists|k: int|
                is_insertion_index(data@, target_x, k) && index == nearer_neighbour(
                    data@,
                    target_x,
                    k,
                )
        },
{
    let n = data.len();
    if n == 0 {
        return None;
    }
    let idx = insertion_index(data, target_x);
    let chosen = if idx == 0 {
        0
    } else if idx >= n {
        n - 1
    } else {
        let before = data[idx - 1].x.sub(target_x).abs();
        let after = data[idx].x.sub(target_x).abs();
        if after.lt(before) {
            idx
        } else {
            idx - 1
        }
    };
    assert(chosen == nearer_neighbour(data@, target_x, idx as int));
    Some((chosen, &data[chosen]))
}

} // verus!
