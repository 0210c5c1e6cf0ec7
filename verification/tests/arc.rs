use lodviz_core::algorithms::arc::{
    arc_centroid, arc_outline, arc_path, compute_arcs, ArcSlice,
};
use lodviz_core::number::float::{Float, PI_BITS};
use std::f64::consts::PI;

fn fl(x: f64) -> Float {
    Float::from_bits(x.to_bits())
}

fn val(x: Float) -> f64 {
    f64::from_bits(x.to_bits())
}

fn floats(xs: &[f64]) -> Vec<Float> {
    xs.iter().map(|&x| fl(x)).collect()
}

fn approx_eq(a: f64, b: f64) -> bool {
    (a - b).abs() < 1e-6
}

#[test]
fn test_compute_arcs_basic() {
    let arcs = compute_arcs(&floats(&[50.0, 50.0]));
    assert_eq!(arcs.len(), 2);
    assert!(approx_eq(val(arcs[0].percentage), 50.0));
    assert!(approx_eq(val(arcs[1].percentage), 50.0));
}

#[test]
fn test_compute_arcs_single() {
    let arcs = compute_arcs(&floats(&[100.0]));
    assert_eq!(arcs.len(), 1);
    assert!(approx_eq(val(arcs[0].percentage), 100.0));
    // Full circle
    let span = val(arcs[0].end_angle) - val(arcs[0].start_angle);
    assert!(approx_eq(span, 2.0 * PI));
}

#[test]
fn test_compute_arcs_three() {
    let arcs = compute_arcs(&floats(&[25.0, 50.0, 25.0]));
    assert_eq!(arcs.len(), 3);
    assert!(approx_eq(val(arcs[0].percentage), 25.0));
    assert!(approx_eq(val(arcs[1].percentage), 50.0));
    assert!(approx_eq(val(arcs[2].percentage), 25.0));
}

#[test]
fn test_compute_arcs_empty() {
    assert!(compute_arcs(&[]).is_empty());
}

#[test]
fn test_compute_arcs_all_zero() {
    assert!(compute_arcs(&floats(&[0.0, 0.0])).is_empty());
}

#[test]
fn test_compute_arcs_skip_negative() {
    let arcs = compute_arcs(&floats(&[30.0, -10.0, 70.0]));
    assert_eq!(arcs.len(), 2);
    assert!(approx_eq(val(arcs[0].percentage), 30.0));
    assert!(approx_eq(val(arcs[1].percentage), 70.0));
}

#[test]
fn test_compute_arcs_exact_angles() {
    let arcs = compute_arcs(&floats(&[25.0, 0.0, 50.0, 25.0]));
    assert_eq!(arcs.len(), 3);
    let start = -PI / 2.0;
    let first_end = start + (25.0 / 100.0) * 2.0 * PI;
    let second_end = first_end + (50.0 / 100.0) * 2.0 * PI;
    assert_eq!(val(arcs[0].start_angle), start);
    assert_eq!(val(arcs[0].end_angle), first_end);
    assert_eq!(val(arcs[1].start_angle), first_end);
    assert_eq!(val(arcs[1].end_angle), second_end);
    assert_eq!(val(arcs[2].start_angle), second_end);
    assert_eq!(val(arcs[1].value), 50.0);
    assert_eq!(val(arcs[1].percentage), 50.0);
    let sum: f64 = arcs.iter().map(|a| val(a.percentage)).sum();
    assert_eq!(sum, 100.0);
}

#[test]
fn test_arc_slice_mid_angle() {
    let slice = ArcSlice {
        start_angle: fl(1.0),
        end_angle: fl(2.0),
        value: fl(3.0),
        percentage: fl(10.0),
    };
    assert_eq!(val(slice.mid_angle()), 1.5);
    assert_eq!(f64::from_bits(PI_BITS), PI);
}

#[test]
fn test_arc_centroid() {
    let (cx, cy) = arc_centroid(fl(100.0), fl(100.0), fl(50.0), fl(-PI / 2.0), fl(0.0));
    // Mid angle is -PI/4, so centroid is at (100 + 50*cos(-PI/4), 100 + 50*sin(-PI/4))
    let expected_x = 100.0 + 50.0 * (-PI / 4.0).cos();
    let expected_y = 100.0 + 50.0 * (-PI / 4.0).sin();
    assert!(approx_eq(val(cx), expected_x));
    assert!(approx_eq(val(cy), expected_y));
}

#[test]
fn test_arc_outline_pie_and_donut() {
    let pie = arc_outline(fl(100.0), fl(100.0), fl(80.0), fl(0.0), fl(-PI / 2.0), fl(0.0));
    assert!(!pie.donut);
    assert!(!pie.large_arc);
    assert!(approx_eq(val(pie.outer_start.0), 100.0));
    assert!(approx_eq(val(pie.outer_start.1), 20.0));
    assert!(approx_eq(val(pie.outer_end.0), 180.0));
    assert!(approx_eq(val(pie.outer_end.1), 100.0));
    let donut = arc_outline(fl(100.0), fl(100.0), fl(80.0), fl(40.0), fl(-PI / 2.0), fl(PI));
    assert!(donut.donut);
    assert!(donut.large_arc);
    assert!(approx_eq(val(donut.inner_start.0), 60.0));
    assert!(approx_eq(val(donut.inner_start.1), 100.0));
    assert!(approx_eq(val(donut.inner_end.0), 100.0));
    assert!(approx_eq(val(donut.inner_end.1), 60.0));
}

#[test]
fn test_arc_path_pie() {
    let path = arc_path(fl(100.0), fl(100.0), fl(80.0), fl(0.0), fl(-PI / 2.0), fl(0.0));
    assert!(path.starts_with("M 100.00 100.00"));
    assert!(path.contains("A 80.00"));
    assert!(path.ends_with('Z'));
}

#[test]
fn test_arc_path_donut() {
    let path = arc_path(fl(100.0), fl(100.0), fl(80.0), fl(40.0), fl(-PI / 2.0), fl(0.0));
    // Donut doesn't start from center
    assert!(!path.starts_with("M 100.00 100.00"));
    assert!(path.contains("A 80.00"));
    assert!(path.contains("A 40.00"));
    assert!(path.ends_with('Z'));
}

#[test]
fn test_arc_path_exact_text() {
    let pie = arc_path(fl(100.0), fl(100.0), fl(80.0), fl(0.0), fl(-PI / 2.0), fl(0.0));
    assert_eq!(pie, "M 100.00 100.00 L 100.00 20.00 A 80.00 80.00 0 0 1 180.00 100.00 Z");
    let donut = arc_path(fl(100.0), fl(100.0), fl(80.0), fl(40.0), fl(-PI / 2.0), fl(PI));
    assert_eq!(
        donut,
        "M 100.00 20.00 A 80.00 80.00 0 1 1 20.00 100.00 L 60.00 100.00 A 40.00 40.00 0 1 0 100.00 60.00 Z"
    );
}
