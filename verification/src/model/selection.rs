//! Which points of a series a user has selected.

use crate::model::data::DataPoint;
use crate::number::float::{Float, EPSILON_BITS};
use vstd::prelude::*;

verus! {

/// A selection of points: by index, by a box in data space, or by any of
/// several selections.
#[derive(Debug, PartialEq)]
pub enum Selection {
    /// The points at the given indices.
    Point { indices: Vec<usize> },
    /// The points whose `x` lies in `x`, both ends included, and whose `y`
    /// lies in `y` where that is given.
    Interval { x: (Float, Float), y: Option<(Float, Float)> },
    /// The points that any of the given selections selects.
    Multi { selections: Vec<Selection> },
}

/// The two numbers with the smaller first. A pair that cannot be compared
/// is turned round.
pub open spec fn in_order(a: Float, b: Float) -> (Float, Float) {
    if a.spec_le(b) {
        (a, b)
    } else {
        (b, a)
    }
}

/// Whether `v` lies in the interval, both ends included.
pub open spec fn within(v: Float, interval: (Float, Float)) -> bool {
    v.spec_ge(interval.0) && v.spec_le(interval.1)
}

fn ordered(a: Float, b: Float) -> (r: (Float, Float))
    ensures
        r == in_order(a, b),
{
    if a.le(b) {
        (a, b)
    } else {
        (b, a)
    }
}

impl Selection {
    /// Whether the selection holds the point `point` at position `index`.
    pub open spec fn spec_contains_point(&self, point: DataPoint, index: usize) -> bool
        decreases self,
    {
        match self {
            Selection::Point { indices } => indices@.contains(index),
            Selection::Interval { x, y } => within(point.x, *x) && match y {
                Some(range) => within(point.y, *range),
                None => true,
            },
            Selection::Multi { selections } => exists|i: int|
                0 <= i < selections@.len() && (#[trigger] selections@[i]).spec_contains_point(
                    point,
                    index,
                ),
        }
    }

    /// The selection of the points at the given indices.
    pub fn point(indices: Vec<usize>) -> (r: Selection)
        ensures
            r == (Selection::Point { indices }),
    {
        Selection::Point { indices }
    }

    /// The selection of the points whose `x` lies between the two bounds,
    /// which may come in either order.
    pub fn interval_x(x_min: Float, x_max: Float) -> (r: Selection)
        ensures
            r == (Selection::Interval { x: in_order(x_min, x_max), y: None }),
    {
        Selection::Interval { x: ordered(x_min, x_max), y: None }
    }

    /// The selection of the points in the box between the bounds, each pair
    /// of which may come in either order.
    pub fn interval_xy(x_min: Float, x_max: Float, y_min: Float, y_max: Float) -> (r: Selection)
        ensures
            r == (Selection::Interval {
                x: in_order(x_min, x_max),
                y: Some(in_order(y_min, y_max)),
            }),
    {
        Selection::Interval { x: ordered(x_min, x_max), y: Some(ordered(y_min, y_max)) }
    }

    /// Whether the selection can hold no point by its shape: no indices, an
    /// interval without width along `x`, or no selections.
    pub fn is_empty(&self) -> (r: bool)
        ensures
            r == match self {
                Selection::Point { indices } => indices@.len() == 0,
                Selection::Interval { x, y } => x.1.spec_sub(x.0).spec_abs().spec_lt(
                    Float::from_bits(EPSILON_BITS),
                ),
                Selection::Multi { selections } => selections@.len() == 0,
            },
    {
        match self {
            Selection::Point { indices } => indices.len() == 0,
            Selection::Interval { x, y } => x.1.sub(x.0).abs().lt(
                Float::from_bits(EPSILON_BITS),
            ),
            Selection::Multi { selections } => selections.len() == 0,
        }
    }

    /// A selection that holds the same as this one.
    pub fn copy(&self) -> (r: Selection)
        ensures
            forall|point: DataPoint, index: usize|
                r.spec_contains_point(point, index) == self.spec_contains_point(point, index),
        decreases self,
    {
        match self {
            Selection::Point { indices } => Selection::Point { indices: indices.clone() },
            Selection::Interval { x, y } => Selection::Interval { x: *x, y: *y },
            Selection::Multi { selections } => {
                let n = selections.len();
                let mut copies: Vec<Selection> = Vec::new();
                let mut i: usize = 0;
                while i < n
                    invariant
                        i <= n,
                        n == selections@.len(),
                        *self == (Selection::Multi { selections: *selections }),
                        copies@.len() == i,
                        forall|k: int, point: DataPoint, index: usize|
                            0 <= k < i ==> (#[trigger] copies@[k].spec_contains_point(point, index))
                                == selections@[k].spec_contains_point(point, index),
                    decreases n - i,
                {
                    assert(decreases_to!(*self => self->selections));
                    copies.push(selections[i].copy());
                    i += 1;
                }
                let ghost copied = copies@;
                let r = Selection::Multi { selections: copies };
                assert(r->selections@ == copied);
                assert forall|point: DataPoint, index: usize|
                    r.spec_contains_point(point, index) == self.spec_contains_point(
                        point,
                        index,
                    ) by {
                    let here = exists|k: int|
                        0 <= k < selections@.len() && (#[trigger] selections@[k]).spec_contains_point(
                            point,
                            index,
                        );
                    let there = exists|k: int|
                        0 <= k < copied.len() && (#[trigger] copied[k]).spec_contains_point(
                            point,
                            index,
                        );
                    assert(self.spec_contains_point(point, index) == here);
                    assert(r.spec_contains_point(point, index) == there);
                    if here {
                        let k = choose|k: int|
                            0 <= k < selections@.len() && (#[trigger] selections@[k]).spec_contains_point(
                                point,
                                index,
                            );
                        assert(copied[k].spec_contains_point(point, index));
                    }
                    if there {
                        let k = choose|k: int|
                            0 <= k < copied.len() && (#[trigger] copied[k]).spec_contains_point(
                                point,
                                index,
                            );
                        assert(selections@[k].spec_contains_point(point, index));
                    }
                }
                r
            },
        }
    }

    /// Whether the selection holds the point `point` at position `index`.
    pub fn contains_point(&self, point: &DataPoint, index: usize) -> (r: bool)
        ensures
            r == self.spec_contains_point(*point, index),
        decreases self,
    {
        match self {
            Selection::Point { indices } => {
                let mut i: usize = 0;
                while i < indices.len()
                    invariant
                        i <= indices@.len(),
                        *self == (Selection::Point { indices: *indices }),
                        forall|k: int| 0 <= k < i ==> indices@[k] != index,
                    decreases indices@.len() - i,
                {
                    if indices[i] == index {
                        return true;
                    }
                    i += 1;
                }
                false
            },
            Selection::Interval { x, y } => {
                let in_x = point.x.ge(x.0) && point.x.le(x.1);
                let in_y = match y {
                    Some(range) => point.y.ge(range.0) && point.y.le(range.1),
                    None => true,
                };
                in_x && in_y
            },
            Selection::Multi { selections } => {
                let mut i: usize = 0;
                while i < selections.len()
                    invariant
                        i <= selections@.len(),
                        *self == (Selection::Multi { selections: *selections }),
                        forall|k: int|
                            0 <= k < i ==> !(#[trigger] selections@[k]).spec_contains_point(
                                *point,
                                index,
                            ),
                    decreases selections@.len() - i,
                {
                    assert(decreases_to!(*self => self->selections));
                    if selections[i].contains_point(point, index) {
                        return true;
                    }
                    i += 1;
                }
                false
            },
        }
    }
}

/// The points of `data` that `selection` holds, in their order.
pub open spec fn selected(data: Seq<DataPoint>, selection: Selection) -> Seq<DataPoint>
    decreases data.len(),
{
    if data.len() == 0 {
        data
    } else if selection.spec_contains_point(data.last(), (data.len() - 1) as usize) {
        selected(data.drop_last(), selection).push(data.last())
    } else {
        selected(data.drop_last(), selection)
    }
}

/// The points of `data` that `selection` holds, in their order.
pub fn filter_by_selection(data: &[DataPoint], selection: &Selection) -> (r: Vec<DataPoint>)
    ensures
        r@ == selected(data@, *selection),
{
    let mut out: Vec<DataPoint> = Vec::new();
    let n = data.len();
    let mut i: usize = 0;
    while i < n
        invariant
            i <= n,
            n == data@.len(),
            out@ == selected(data@.take(i as int), *selection),
        decreases n - i,
    {
        assert(data@.take(i + 1).drop_last() =~= data@.take(i as int));
        if selection.contains_point(&data[i], i) {
            out.push(data[i]);
        }
        i += 1;
    }
    assert(data@.take(n as int) =~= data@);
    out
}

/// An interval selection holds the same points whichever of its two bounds
/// was given first.
pub proof fn lemma_interval_bounds_commute(a: Float, b: Float, point: DataPoint, index: usize)
    ensures
        (Selection::Interval { x: in_order(a, b), y: None }).spec_contains_point(point, index) == (
        Selection::Interval { x: in_order(b, a), y: None }).spec_contains_point(point, index),
{
}

/// The bounds of an interval selection are in order however they were
/// given, and the selection holds exactly the points whose `x` lies between
/// the smaller and the larger of them.
pub proof fn lemma_interval_is_normalized(a: Float, b: Float, point: DataPoint, index: usize)
    requires
        !a.spec_is_nan(),
        !b.spec_is_nan(),
    ensures
        in_order(a, b).0.spec_le(in_order(a, b).1),
        in_order(a, b).0 == a.spec_min(b) || in_order(a, b).0.spec_same(a.spec_min(b)),
        (Selection::Interval { x: in_order(a, b), y: None }).spec_contains_point(point, index) == (
        point.x.spec_ge(a.spec_min(b)) && point.x.spec_le(a.spec_max(b))),
{
}

} // verus!
