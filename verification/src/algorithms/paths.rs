//! Path and point texts for lines, areas and polygons, with every number to
//! two decimals.

use crate::model::data::DataPoint;
use crate::model::scale::{LinearScale, Scale};
use crate::number::float::Float;
use vstd::prelude::*;
use vstd::string::StringExecFns;

verus! {

/// The position of a point on the screen, as text: its two coordinates
/// mapped through the scales, with a space between.
pub open spec fn mapped_text(point: DataPoint, x_scale: LinearScale, y_scale: LinearScale) -> Seq<
    char,
> {
    x_scale.spec_map(point.x).spec_to_fixed() + " "@ + y_scale.spec_map(point.y).spec_to_fixed()
}

/// The path through the points: a move to the first and a line to each
/// further one.
pub open spec fn line_text(points: Seq<DataPoint>, x_scale: LinearScale, y_scale: LinearScale) -> Seq<
    char,
>
    decreases points.len(),
{
    if points.len() == 0 {
        Seq::empty()
    } else if points.len() == 1 {
        "M "@ + mapped_text(points[0], x_scale, y_scale)
    } else {
        line_text(points.drop_last(), x_scale, y_scale) + " L "@ + mapped_text(
            points.last(),
            x_scale,
            y_scale,
        )
    }
}

/// The path of a line chart through the points; `M 0 0` without points.
pub open spec fn line_path(points: Seq<DataPoint>, x_scale: LinearScale, y_scale: LinearScale) -> Seq<
    char,
> {
    if points.len() == 0 {
        "M 0 0"@
    } else {
        line_text(points, x_scale, y_scale)
    }
}

/// The path of a filled area: the line through the points, down to the
/// baseline below the last point, back along it to below the first, and
/// closed. `M 0 0` without points.
pub open spec fn area_path(
    points: Seq<DataPoint>,
    x_scale: LinearScale,
    y_scale: LinearScale,
    baseline_y: Float,
) -> Seq<char> {
    if points.len() == 0 {
        "M 0 0"@
    } else {
        line_text(points, x_scale, y_scale) + " L "@ + x_scale.spec_map(
            points.last().x,
        ).spec_to_fixed() + " "@ + baseline_y.spec_to_fixed() + " L "@ + x_scale.spec_map(
            points[0].x,
        ).spec_to_fixed() + " "@ + baseline_y.spec_to_fixed() + " Z"@
    }
}

fn append_mapped(out: &mut String, point: DataPoint, x_scale: &LinearScale, y_scale: &LinearScale)
    ensures
        final(out)@ == old(out)@ + mapped_text(point, *x_scale, *y_scale),
{
    let ghost start = out@;
    out.append(x_scale.map(point.x).to_fixed().as_str());
    out.append(" ");
    out.append(y_scale.map(point.y).to_fixed().as_str());
    assert(out@ =~= start + mapped_text(point, *x_scale, *y_scale));
}

fn line_of(points: &[DataPoint], x_scale: &LinearScale, y_scale: &LinearScale) -> (r: String)
    requires
        points@.len() > 0,
    ensures
        r@ == line_text(points@, *x_scale, *y_scale),
{
    let n = points.len();
    let mut path = "M ".to_owned();
    append_mapped(&mut path, points[0], x_scale, y_scale);
    assert(points@.take(1) =~= seq![points@[0]]);
    let mut i: usize = 1;
    while i < n
        invariant
            1 <= i <= n,
            n == points@.len(),
            path@ == line_text(points@.take(i as int), *x_scale, *y_scale),
        decreases n - i,
    {
        assert(points@.take(i + 1).drop_last() =~= points@.take(i as int));
        assert(points@.take(i + 1).last() == points@[i as int]);
        let ghost before = path@;
        path.append(" L ");
        append_mapped(&mut path, points[i], x_scale, y_scale);
        assert(path@ =~= before + " L "@ + mapped_text(points@[i as int], *x_scale, *y_scale));
        i += 1;
    }
    assert(points@.take(n as int) =~= points@);
    path
}

/// The path of a line chart through the points, each mapped through the two
/// scales.
pub fn generate_line_path(points: &[DataPoint], x_scale: &LinearScale, y_scale: &LinearScale) -> (r:
    String)
    ensures
        r@ == line_path(points@, *x_scale, *y_scale),
{
    if points.len() == 0 {
        return "M 0 0".to_owned();
    }
    line_of(points, x_scale, y_scale)
}

/// The path of a filled area below the line through the points, down to
/// `baseline_y`, which is a position on the screen.
pub fn generate_area_path(
    points: &[DataPoint],
    x_scale: &LinearScale,
    y_scale: &LinearScale,
    baseline_y: Float,
) -> (r: String)
    ensures
        r@ == area_path(points@, *x_scale, *y_scale, baseline_y),
{
    let n = points.len();
    if n == 0 {
        return "M 0 0".to_owned();
    }
    let mut path = line_of(points, x_scale, y_scale);
    let base = baseline_y.to_fixed();
    path.append(" L ");
    path.append(x_scale.map(points[n - 1].x).to_fixed().as_str());
    path.append(" ");
    path.append(base.as_str());
    path.append(" L ");
    path.append(x_scale.map(points[0].x).to_fixed().as_str());
    path.append(" ");
    path.append(base.as_str());
    path.append(" Z");
    assert(path@ =~= area_path(points@, *x_scale, *y_scale, baseline_y));
    path
}

/// One corner of a polygon, as text: its two coordinates with a comma
/// between.
pub open spec fn corner_text(p: (Float, Float)) -> Seq<char> {
    p.0.spec_to_fixed() + ","@ + p.1.spec_to_fixed()
}

/// The corners of a polygon, as text, with a space between each two.
pub open spec fn polygon_text(points: Seq<(Float, Float)>) -> Seq<char>
    decreases points.len(),
{
    if points.len() == 0 {
        Seq::empty()
    } else if points.len() == 1 {
        corner_text(points[0])
    } else {
        polygon_text(points.drop_last()) + " "@ + corner_text(points.last())
    }
}

/// The `points` attribute of a polygon with the given corners.
pub fn polygon_points(pts: &[(Float, Float)]) -> (r: String)
    ensures
        r@ == polygon_text(pts@),
{
    proof {
        reveal_strlit("");
    }
    let n = pts.len();
    let mut out = "".to_owned();
    let mut i: usize = 0;
    assert(out@ =~= polygon_text(pts@.take(0)));
    while i < n
        invariant
            i <= n,
            n == pts@.len(),
            out@ == polygon_text(pts@.take(i as int)),
        decreases n - i,
    {
        assert(pts@.take(i + 1).drop_last() =~= pts@.take(i as int));
        assert(pts@.take(i + 1).last() == pts@[i as int]);
        let ghost before = out@;
        if i > 0 {
            out.append(" ");
        }
        out.append(pts[i].0.to_fixed().as_str());
        out.append(",");
        out.append(pts[i].1.to_fixed().as_str());
        assert(out@ =~= polygon_text(pts@.take(i + 1))) by {
            if i == 0 {
                assert(before =~= Seq::<char>::empty());
            }
        }
        i += 1;
    }
    assert(pts@.take(n as int) =~= pts@);
    out
}

/// The point at the given angle, in radians, on the circle of the given
/// radius round `(cx, cy)`.
pub fn polar_to_cart(cx: Float, cy: Float, radius: Float, angle_rad: Float) -> (r: (Float, Float))
    ensures
        r == crate::algorithms::arc::point_on_circle(cx, cy, radius, angle_rad),
{
    (cx.add(radius.mul(angle_rad.cos())), cy.add(radius.mul(angle_rad.sin())))
}

} // verus!
