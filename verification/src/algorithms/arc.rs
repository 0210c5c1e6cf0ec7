//! Arc geometry for pie and donut charts.

use crate::number::float::{Float, HUNDRED_BITS, PI_BITS, TWO_BITS, ZERO_BITS};
use vstd::prelude::*;
use vstd::string::StringExecFns;

verus! {

/// One slice of a pie: its angles in radians, the value it stands for and
/// that value's share of the whole in percent.
#[derive(Debug, Clone, PartialEq)]
pub struct ArcSlice {
    pub start_angle: Float,
    pub end_angle: Float,
    pub value: Float,
    pub percentage: Float,
}

impl ArcSlice {
    /// The angle half-way between the two ends of the slice.
    pub fn mid_angle(&self) -> (r: Float)
        ensures
            r == self.start_angle.spec_add(self.end_angle).spec_div(Float::from_bits(TWO_BITS)),
    {
        self.start_angle.add(self.end_angle).div(Float::from_bits(TWO_BITS))
    }
}

/// The sum of the values above zero, added up from zero in order.
pub open spec fn positive_total(values: Seq<Float>) -> Float
    decreases values.len(),
{
    if values.len() == 0 {
        Float::from_bits(ZERO_BITS)
    } else if values.last().spec_gt(Float::from_bits(ZERO_BITS)) {
        positive_total(values.drop_last()).spec_add(values.last())
    } else {
        positive_total(values.drop_last())
    }
}

/// The angle at which the pie starts: a quarter turn before zero, which is
/// twelve o'clock on a screen.
pub open spec fn first_angle() -> Float {
    Float::from_bits(PI_BITS).spec_neg().spec_div(Float::from_bits(TWO_BITS))
}

/// The share of `value` in `total`, in percent.
pub open spec fn share(value: Float, total: Float) -> Float {
    value.spec_div(total).spec_mul(Float::from_bits(HUNDRED_BITS))
}

/// The angle that `value` takes of a full turn that stands for `total`.
pub open spec fn span(value: Float, total: Float) -> Float {
    value.spec_div(total).spec_mul(Float::from_bits(TWO_BITS)).spec_mul(Float::from_bits(PI_BITS))
}

/// Whether a value gets no slice: it is zero or below.
pub open spec fn is_left_out(value: Float) -> bool {
    value.spec_le(Float::from_bits(ZERO_BITS))
}

/// The angle reached after the slices of `values`.
pub open spec fn angle_after(values: Seq<Float>, total: Float) -> Float
    decreases values.len(),
{
    if values.len() == 0 {
        first_angle()
    } else if is_left_out(values.last()) {
        angle_after(values.drop_last(), total)
    } else {
        angle_after(values.drop_last(), total).spec_add(span(values.last(), total))
    }
}

/// The slices of `values` in a pie that stands for `total`, in input order,
/// each starting where the one before it ended.
pub open spec fn slices(values: Seq<Float>, total: Float) -> Seq<ArcSlice>
    decreases values.len(),
{
    if values.len() == 0 {
        Seq::empty()
    } else if is_left_out(values.last()) {
        slices(values.drop_last(), total)
    } else {
        slices(values.drop_last(), total).push(
            ArcSlice {
                start_angle: angle_after(values.drop_last(), total),
                end_angle: angle_after(values, total),
                value: values.last(),
                percentage: share(values.last(), total),
            },
        )
    }
}

/// The slices of a pie chart of `values`.
///
/// The values above zero share the full turn in proportion; a value of zero
/// or below gets no slice. The slices come in input order, start at twelve
/// o'clock and run clockwise. There are no slices where the sum of the values
/// above zero is zero or below.
pub fn compute_arcs(values: &[Float]) -> (arcs: Vec<ArcSlice>)
    ensures
        arcs@ == if is_left_out(positive_total(values@)) {
            Seq::empty()
        } else {
            slices(values@, positive_total(values@))
        },
{
    let zero = Float::from_bits(ZERO_BITS);
    let n = values.len();
    let mut total = zero;
    let mut i: usize = 0;
    while i < n
        invariant
            i <= n,
            n == values@.len(),
            zero == Float::from_bits(ZERO_BITS),
            total == positive_total(values@.take(i as int)),
        decreases n - i,
    {
        assert(values@.take(i + 1).drop_last() =~= values@.take(i as int));
        if values[i].gt(zero) {
            total = total.add(values[i]);
        }
        i += 1;
    }
    assert(values@.take(n as int) =~= values@);
    let mut arcs: Vec<ArcSlice> = Vec::new();
    if total.le(zero) {
        return arcs;
    }
    let mut current_angle = Float::from_bits(PI_BITS).neg().div(Float::from_bits(TWO_BITS));
    let mut k: usize = 0;
    while k < n
        invariant
            k <= n,
            n == values@.len(),
            zero == Float::from_bits(ZERO_BITS),
            current_angle == angle_after(values@.take(k as int), total),
            arcs@ == slices(values@.take(k as int), total),
        decreases n - k,
    {
        assert(values@.take(k + 1).drop_last() =~= values@.take(k as int));
        let value = values[k];
        if !value.le(zero) {
            let fraction = value.div(total);
            let percentage = fraction.mul(Float::from_bits(HUNDRED_BITS));
            let angle_span = fraction.mul(Float::from_bits(TWO_BITS)).mul(Float::from_bits(PI_BITS));
            let end_angle = current_angle.add(angle_span);
            arcs.push(ArcSlice { start_angle: current_angle, end_angle, value, percentage });
            current_angle = end_angle;
        }
        k += 1;
    }
    arcs
}

/// Each slice after the first starts at the angle at which the one before it
/// ends, and the first starts at twelve o'clock.
pub proof fn lemma_slices_are_contiguous(values: Seq<Float>, total: Float)
    ensures
        slices(values, total).len() > 0 ==> slices(values, total)[0].start_angle == first_angle()
            && slices(values, total).last().end_angle == angle_after(values, total),
        slices(values, total).len() == 0 ==> angle_after(values, total) == first_angle(),
        forall|i: int|
            0 < i < slices(values, total).len() ==> (#[trigger] slices(values, total)[i]).start_angle
                == slices(values, total)[i - 1].end_angle,
    decreases values.len(),
{
    if values.len() > 0 {
        lemma_slices_are_contiguous(values.drop_last(), total);
    }
}

/// The outline of a slice: the corner points of its path and the flag that
/// tells a renderer to take the long way round.
#[derive(Debug, Clone, Copy, PartialEq)]
pub struct ArcOutline {
    /// Whether the slice has a hole at the centre: the inner radius is above
    /// zero.
    pub donut: bool,
    /// Whether the slice spans more than half a turn.
    pub large_arc: bool,
    /// Where the outer arc starts.
    pub outer_start: (Float, Float),
    /// Where the outer arc ends.
    pub outer_end: (Float, Float),
    /// Where the inner arc starts: at the end angle, since it runs backward.
    pub inner_start: (Float, Float),
    /// Where the inner arc ends: at the start angle.
    pub inner_end: (Float, Float),
}

/// The point at `angle` on the circle of the given radius round `(cx, cy)`.
pub open spec fn point_on_circle(cx: Float, cy: Float, radius: Float, angle: Float) -> (
    Float,
    Float,
) {
    (cx.spec_add(radius.spec_mul(angle.spec_cos())), cy.spec_add(radius.spec_mul(angle.spec_sin())))
}

fn circle_point(cx: Float, cy: Float, radius: Float, angle: Float) -> (r: (Float, Float))
    ensures
        r == point_on_circle(cx, cy, radius, angle),
{
    (cx.add(radius.mul(angle.cos())), cy.add(radius.mul(angle.sin())))
}

/// The outline of the slice between the two angles, round `(cx, cy)`, from
/// the inner to the outer radius.
pub open spec fn outline(
    cx: Float,
    cy: Float,
    outer_r: Float,
    inner_r: Float,
    start_angle: Float,
    end_angle: Float,
) -> ArcOutline {
    ArcOutline {
        donut: !inner_r.spec_le(Float::from_bits(ZERO_BITS)),
        large_arc: end_angle.spec_sub(start_angle).spec_abs().spec_gt(Float::from_bits(PI_BITS)),
        outer_start: point_on_circle(cx, cy, outer_r, start_angle),
        outer_end: point_on_circle(cx, cy, outer_r, end_angle),
        inner_start: point_on_circle(cx, cy, inner_r, end_angle),
        inner_end: point_on_circle(cx, cy, inner_r, start_angle),
    }
}

/// The outline of the slice between the two angles, round `(cx, cy)`, from
/// the inner to the outer radius. An inner radius of zero or below gives a
/// pie slice, whose path runs from the centre; its inner points are computed
/// all the same.
pub fn arc_outline(
    cx: Float,
    cy: Float,
    outer_r: Float,
    inner_r: Float,
    start_angle: Float,
    end_angle: Float,
) -> (r: ArcOutline)
    ensures
        r == outline(cx, cy, outer_r, inner_r, start_angle, end_angle),
{
    let angle_span = end_angle.sub(start_angle);
    ArcOutline {
        donut: !inner_r.le(Float::from_bits(ZERO_BITS)),
        large_arc: angle_span.abs().gt(Float::from_bits(PI_BITS)),
        outer_start: circle_point(cx, cy, outer_r, start_angle),
        outer_end: circle_point(cx, cy, outer_r, end_angle),
        inner_start: circle_point(cx, cy, inner_r, end_angle),
        inner_end: circle_point(cx, cy, inner_r, start_angle),
    }
}

/// The point at the given radius on the middle angle of a slice, where a
/// label goes.
pub fn arc_centroid(cx: Float, cy: Float, radius: Float, start_angle: Float, end_angle: Float) -> (r:
    (Float, Float))
    ensures
        r == point_on_circle(
            cx,
            cy,
            radius,
            start_angle.spec_add(end_angle).spec_div(Float::from_bits(TWO_BITS)),
        ),
{
    let mid = start_angle.add(end_angle).div(Float::from_bits(TWO_BITS));
    circle_point(cx, cy, radius, mid)
}

/// The two coordinates of a point with two decimals, with a space between.
pub open spec fn point_text(p: (Float, Float)) -> Seq<char> {
    p.0.spec_to_fixed() + " "@ + p.1.spec_to_fixed()
}

/// The arc command of a path: to `end` along a circle of the given radius,
/// the long way round where `large_arc` is set, clockwise where `clockwise`
/// is.
pub open spec fn arc_command(radius: Float, large_arc: bool, clockwise: bool, end: (Float, Float)) -> Seq<
    char,
> {
    " A "@ + radius.spec_to_fixed() + " "@ + radius.spec_to_fixed() + " 0 "@ + (if large_arc {
        "1"@
    } else {
        "0"@
    }) + " "@ + (if clockwise {
        "1"@
    } else {
        "0"@
    }) + " "@ + point_text(end)
}

/// The path of a slice. A pie slice runs from the centre to the start of the
/// arc, along the arc, and back. A donut slice runs along the outer arc, in
/// to the inner radius, back along the inner arc, and closes.
pub open spec fn path_text(
    cx: Float,
    cy: Float,
    outer_r: Float,
    inner_r: Float,
    outline: ArcOutline,
) -> Seq<char> {
    if !outline.donut {
        "M "@ + point_text((cx, cy)) + " L "@ + point_text(outline.outer_start) + arc_command(
            outer_r,
            outline.large_arc,
            true,
            outline.outer_end,
        ) + " Z"@
    } else {
        "M "@ + point_text(outline.outer_start) + arc_command(
            outer_r,
            outline.large_arc,
            true,
            outline.outer_end,
        ) + " L "@ + point_text(outline.inner_start) + arc_command(
            inner_r,
            outline.large_arc,
            false,
            outline.inner_end,
        ) + " Z"@
    }
}

fn append_point(out: &mut String, p: (Float, Float))
    ensures
        final(out)@ == old(out)@ + point_text(p),
{
    let ghost start = out@;
    out.append(p.0.to_fixed().as_str());
    out.append(" ");
    out.append(p.1.to_fixed().as_str());
    assert(out@ =~= start + point_text(p));
}

fn append_arc(out: &mut String, radius: Float, large_arc: bool, clockwise: bool, end: (Float, Float))
    ensures
        final(out)@ == old(out)@ + arc_command(radius, large_arc, clockwise, end),
{
    let ghost start = out@;
    let r = radius.to_fixed();
    out.append(" A ");
    out.append(r.as_str());
    out.append(" ");
    out.append(r.as_str());
    out.append(" 0 ");
    out.append(
        if large_arc {
            "1"
        } else {
            "0"
        },
    );
    out.append(" ");
    out.append(
        if clockwise {
            "1"
        } else {
            "0"
        },
    );
    out.append(" ");
    let ghost before = out@;
    append_point(out, end);
    assert(out@ =~= start + arc_command(radius, large_arc, clockwise, end));
}

/// The SVG path of the slice between the two angles, round `(cx, cy)`, from
/// the inner to the outer radius, with every number to two decimals. An
/// inner radius of zero or below gives a pie slice.
pub fn arc_path(
    cx: Float,
    cy: Float,
    outer_r: Float,
    inner_r: Float,
    start_angle: Float,
    end_angle: Float,
) -> (r: String)
    ensures
        r@ == path_text(
            cx,
            cy,
            outer_r,
            inner_r,
            outline(cx, cy, outer_r, inner_r, start_angle, end_angle),
        ),
{
    let outline = arc_outline(cx, cy, outer_r, inner_r, start_angle, end_angle);
    let mut out = "M ".to_owned();
    if !outline.donut {
        append_point(&mut out, (cx, cy));
        out.append(" L ");
        append_point(&mut out, outline.outer_start);
        append_arc(&mut out, outer_r, outline.large_arc, true, outline.outer_end);
        out.append(" Z");
        assert(out@ =~= path_text(cx, cy, outer_r, inner_r, outline));
    } else {
        append_point(&mut out, outline.outer_start);
        append_arc(&mut out, outer_r, outline.large_arc, true, outline.outer_end);
        out.append(" L ");
        append_point(&mut out, outline.inner_start);
        append_arc(&mut out, inner_r, outline.large_arc, false, outline.inner_end);
        out.append(" Z");
        assert(out@ =~= path_text(cx, cy, outer_r, inner_r, outline));
    }
    out
}

} // verus!
