use lodviz_core::algorithms::m4::m4_downsample;
use lodviz_core::model::data::DataPoint;
use lodviz_core::number::float::Float;

fn fl(x: f64) -> Float {
    Float::from_bits(x.to_bits())
}

fn val(x: Float) -> f64 {
    f64::from_bits(x.to_bits())
}

fn pt(x: f64, y: f64) -> DataPoint {
    DataPoint::new(fl(x), fl(y))
}

fn make_points(n: usize) -> Vec<DataPoint> {
    (0..n).map(|i| pt(i as f64, (i as f64 * 0.1).sin())).collect()
}

fn coords(points: &[DataPoint]) -> Vec<(f64, f64)> {
    points.iter().map(|p| (val(p.x), val(p.y))).collect()
}

#[test]
fn test_m4_passthrough_small_data() {
    let data = make_points(40);
    let result = m4_downsample(&data, 10); // 4*10=40 == data.len()
    assert_eq!(result.len(), data.len());
}

#[test]
fn test_m4_reduces_large_data() {
    let data = make_points(10_000);
    let n_pixels = 200;
    let result = m4_downsample(&data, n_pixels);
    assert!(result.len() <= 4 * n_pixels + 4); // slight slack for edge buckets
    assert!(!result.is_empty());
}

#[test]
fn test_m4_preserves_order() {
    let data = make_points(1000);
    let result = m4_downsample(&data, 50);
    for w in result.windows(2) {
        assert!(
            val(w[0].x) <= val(w[1].x),
            "Output not sorted: {:.3} > {:.3}",
            val(w[0].x),
            val(w[1].x)
        );
    }
}

#[test]
fn test_m4_empty_input() {
    assert!(m4_downsample(&[], 100).is_empty());
}

#[test]
fn test_m4_zero_pixels() {
    let data = make_points(100);
    assert!(m4_downsample(&data, 0).is_empty());
}

#[test]
fn test_m4_passthrough_is_identity() {
    let data = make_points(40);
    assert_eq!(m4_downsample(&data, 10), data);
    assert_eq!(m4_downsample(&data, usize::MAX), data);
}

#[test]
fn test_m4_zero_width_domain_is_identity() {
    let data: Vec<DataPoint> = (0..9).map(|i| pt(2.0, i as f64)).collect();
    assert_eq!(m4_downsample(&data, 2), data);
}

#[test]
fn test_m4_first_last_min_max_per_column() {
    // Two columns over [0, 10): [0, 5) and [5, 10].
    let data = vec![
        pt(0.0, 3.0),
        pt(1.0, 9.0),
        pt(2.0, 1.0),
        pt(3.0, 4.0),
        pt(4.0, 5.0),
        pt(5.0, 2.0),
        pt(6.0, 2.0),
        pt(7.0, 8.0),
        pt(8.0, 8.0),
        pt(10.0, 6.0),
    ];
    let out = m4_downsample(&data, 2);
    assert_eq!(
        coords(&out),
        vec![
            (0.0, 3.0),
            (1.0, 9.0),
            (2.0, 1.0),
            (4.0, 5.0),
            (5.0, 2.0),
            (8.0, 8.0),
            (10.0, 6.0),
        ]
    );
}

#[test]
fn test_m4_drops_coinciding_points() {
    let mut data: Vec<DataPoint> = (0..5).map(|i| pt(i as f64, 1.0)).collect();
    data.push(pt(100.0, 1.0));
    data.push(pt(100.0, 1.0));
    data.push(pt(100.0, 1.0));
    data.push(pt(100.0, 1.0));
    // One column: first (0,1), last (100,1), lowest (0,1), highest (100,1).
    let out = m4_downsample(&data, 1);
    assert_eq!(coords(&out), vec![(0.0, 1.0), (100.0, 1.0)]);
}

#[test]
fn test_m4_at_most_four_points_per_column() {
    for &(n, pixels) in &[(1000usize, 7usize), (10_000, 200), (500, 1), (333, 83)] {
        let data = make_points(n);
        let out = m4_downsample(&data, pixels);
        assert!(out.len() <= 4 * pixels, "{} points for {pixels} columns", out.len());
        assert!(out.iter().all(|p| data.iter().any(|q| q.coincides(*p))));
        assert_eq!(out[0], data[0]);
        assert_eq!(out[out.len() - 1], data[n - 1]);
    }
}

/// The same reduction by filtering the points of each column on hardware
/// floats, to compare against.
fn filtered_m4(data: &[(f64, f64)], n_pixels: usize) -> Vec<(f64, f64)> {
    if data.is_empty() || n_pixels == 0 {
        return vec![];
    }
    if data.len() <= 4 * n_pixels {
        return data.to_vec();
    }
    let x_min = data[0].0;
    let x_range = data[data.len() - 1].0 - x_min;
    if x_range <= 0.0 {
        return data.to_vec();
    }
    let width = x_range / n_pixels as f64;
    let mut result: Vec<(f64, f64)> = Vec::new();
    for b in 0..n_pixels {
        let start = x_min + b as f64 * width;
        let end = x_min + (b + 1) as f64 * width;
        let column: Vec<(f64, f64)> = data
            .iter()
            .copied()
            .filter(|p| p.0 >= start && (p.0 < end || b == n_pixels - 1))
            .collect();
        if column.is_empty() {
            continue;
        }
        let low = *column.iter().min_by(|a, b| a.1.partial_cmp(&b.1).unwrap()).unwrap();
        let high = *column.iter().max_by(|a, b| a.1.partial_cmp(&b.1).unwrap()).unwrap();
        let mut points = [column[0], column[column.len() - 1], low, high];
        points.sort_by(|a, b| a.0.partial_cmp(&b.0).unwrap());
        for p in points {
            if result.last() != Some(&p) {
                result.push(p);
            }
        }
    }
    result
}

#[test]
fn test_m4_agrees_with_filtering() {
    for &(n, pixels) in &[(1000usize, 7usize), (5000, 200), (500, 1), (333, 83), (41, 10)] {
        let raw: Vec<(f64, f64)> = (0..n)
            .map(|i| (i as f64 * 0.37 + (i % 3) as f64 * 0.1, ((i * 7919) % 101) as f64 - 50.0))
            .collect();
        let mut sorted = raw.clone();
        sorted.sort_by(|a, b| a.0.partial_cmp(&b.0).unwrap());
        let data: Vec<DataPoint> = sorted.iter().map(|&(x, y)| pt(x, y)).collect();
        assert_eq!(coords(&m4_downsample(&data, pixels)), filtered_m4(&sorted, pixels), "{n} {pixels}");
    }
}

#[test]
fn test_m4_width_is_judged_by_the_end_points() {
    // The last point lies right of the first by the smallest step there is:
    // the data has width, and is reduced.
    let step = f64::from_bits(1);
    let narrow: Vec<DataPoint> =
        (0..9).map(|i| pt(if i < 8 { 0.0 } else { step }, i as f64)).collect();
    let out = m4_downsample(&narrow, 2);
    assert!(out.len() <= 8);
    assert_eq!(coords(&out[..1]), vec![(0.0, 0.0)]);
    assert_eq!(coords(&out[out.len() - 1..]), vec![(step, 8.0)]);

    // The last point lies left of the first: no width, nothing is reduced.
    let backward: Vec<DataPoint> = (0..9).map(|i| pt(-(i as f64), i as f64)).collect();
    assert_eq!(m4_downsample(&backward, 2), backward);

    // Both ends at the same infinity: no width either.
    let far: Vec<DataPoint> = (0..9).map(|i| pt(f64::INFINITY, i as f64)).collect();
    assert_eq!(m4_downsample(&far, 2), far);
}
