use lodviz_core::algorithms::lttb::lttb_downsample;
use lodviz_core::model::data::DataPoint;
use lodviz_core::number::float::Float;

fn fl(x: f64) -> Float {
    Float::from_bits(x.to_bits())
}

fn val(x: Float) -> f64 {
    f64::from_bits(x.to_bits())
}

fn pt(x: f64, y: f64) -> DataPoint {
    DataPoint::new(fl(x), fl(y))
}

/// The algorithm on hardware floats, to compare against.
fn hardware_lttb(data: &[(f64, f64)], threshold: usize) -> Vec<(f64, f64)> {
    if threshold >= data.len() || threshold == 0 {
        return data.to_vec();
    }
    if threshold == 1 {
        return vec![data[0]];
    }
    if threshold == 2 {
        return vec![data[0], data[data.len() - 1]];
    }
    let mut sampled = vec![data[0]];
    let bucket_size = (data.len() - 2) as f64 / (threshold - 2) as f64;
    let mut point_index = 0;
    for i in 0..(threshold - 2) {
        let avg_start = ((i + 1) as f64 * bucket_size + 1.0).floor() as usize;
        let avg_end = (((i + 2) as f64 * bucket_size + 1.0).floor() as usize).min(data.len());
        let count = (avg_end - avg_start) as f64;
        let avg_x = data[avg_start..avg_end].iter().map(|p| p.0).sum::<f64>() / count;
        let avg_y = data[avg_start..avg_end].iter().map(|p| p.1).sum::<f64>() / count;
        let range_start = (i as f64 * bucket_size + 1.0).floor() as usize;
        let a = data[point_index];
        let mut max_area = -1.0;
        let mut max_area_point = range_start;
        for idx in range_start..avg_start {
            let b = data[idx];
            let area = ((a.0 - avg_x) * (b.1 - a.1) - (a.0 - b.0) * (avg_y - a.1)).abs();
            if area > max_area {
                max_area = area;
                max_area_point = idx;
            }
        }
        sampled.push(data[max_area_point]);
        point_index = max_area_point;
    }
    sampled.push(data[data.len() - 1]);
    sampled
}

#[test]
fn test_lttb_preserves_extremes() {
    let data: Vec<DataPoint> = (0..100).map(|i| pt(i as f64, i as f64)).collect();
    let downsampled = lttb_downsample(&data, 10);

    // First and last points must be preserved
    assert_eq!(downsampled[0], data[0]);
    assert_eq!(downsampled[downsampled.len() - 1], data[data.len() - 1]);
}

#[test]
fn test_lttb_reduces_points() {
    let data: Vec<DataPoint> = (0..1000).map(|i| pt(i as f64, (i as f64 * 0.1).sin())).collect();
    let threshold = 50;
    let downsampled = lttb_downsample(&data, threshold);
    assert_eq!(downsampled.len(), threshold);
}

#[test]
fn test_lttb_edge_case_zero_threshold() {
    let data: Vec<DataPoint> = (0..100).map(|i| pt(i as f64, i as f64)).collect();
    let downsampled = lttb_downsample(&data, 0);
    assert_eq!(downsampled.len(), data.len());
}

#[test]
fn test_lttb_edge_case_one_point() {
    let data: Vec<DataPoint> = (0..100).map(|i| pt(i as f64, i as f64)).collect();
    let downsampled = lttb_downsample(&data, 1);
    assert_eq!(downsampled.len(), 1);
    assert_eq!(downsampled[0], data[0]);
}

#[test]
fn test_lttb_edge_case_two_points() {
    let data: Vec<DataPoint> = (0..100).map(|i| pt(i as f64, i as f64)).collect();
    let downsampled = lttb_downsample(&data, 2);
    assert_eq!(downsampled.len(), 2);
    assert_eq!(downsampled[0], data[0]);
    assert_eq!(downsampled[1], data[data.len() - 1]);
}

#[test]
fn test_lttb_threshold_larger_than_data() {
    let data: Vec<DataPoint> = (0..10).map(|i| pt(i as f64, i as f64)).collect();
    let downsampled = lttb_downsample(&data, 100);
    assert_eq!(downsampled.len(), data.len());
}

#[test]
fn test_lttb_preserves_shape() {
    // Create a sine wave with a clear peak
    let data: Vec<DataPoint> = (0..1000)
        .map(|i| {
            let x = i as f64;
            let y = (x * 0.01).sin();
            pt(x, y)
        })
        .collect();

    let downsampled = lttb_downsample(&data, 50);

    // Find the peak in the full data
    let full_max = data.iter().map(|p| val(p.y)).fold(f64::NEG_INFINITY, f64::max);

    // Find the peak in downsampled data
    let downsampled_max = downsampled.iter().map(|p| val(p.y)).fold(f64::NEG_INFINITY, f64::max);

    // The peaks should be very close (within 10% tolerance for visual accuracy)
    assert!((full_max - downsampled_max).abs() / full_max < 0.1);
}

#[test]
fn test_lttb_with_flat_data() {
    // All points have the same y value
    let data: Vec<DataPoint> = (0..100).map(|i| pt(i as f64, 5.0)).collect();
    let downsampled = lttb_downsample(&data, 10);
    assert_eq!(downsampled.len(), 10);
    // All y values should still be 5.0
    assert!(downsampled.iter().all(|p| (val(p.y) - 5.0).abs() < 1e-10));
}

#[test]
fn test_lttb_monotonicity() {
    // Test with strictly increasing data
    let data: Vec<DataPoint> = (0..100).map(|i| pt(i as f64, i as f64)).collect();
    let downsampled = lttb_downsample(&data, 20);

    // X values should still be monotonically increasing
    for i in 1..downsampled.len() {
        assert!(val(downsampled[i].x) > val(downsampled[i - 1].x));
    }
}

#[test]
fn test_lttb_equal_threshold_returns_input() {
    let data: Vec<DataPoint> = (0..7).map(|i| pt(i as f64, (i * i) as f64)).collect();
    assert_eq!(lttb_downsample(&data, 7), data);
    assert!(lttb_downsample(&[], 3).is_empty());
}

#[test]
fn test_lttb_picks_the_spike() {
    let ys = [0.0, 0.0, 0.0, 9.0, 0.0, 0.0, 0.0, 0.0, -7.0, 0.0, 0.0, 0.0];
    let data: Vec<DataPoint> = ys.iter().enumerate().map(|(i, &y)| pt(i as f64, y)).collect();
    let out = lttb_downsample(&data, 4);
    let got: Vec<(f64, f64)> = out.iter().map(|p| (val(p.x), val(p.y))).collect();
    assert_eq!(got, vec![(0.0, 0.0), (3.0, 9.0), (8.0, -7.0), (11.0, 0.0)]);
}

#[test]
fn test_lttb_agrees_with_hardware_arithmetic() {
    for &(n, t) in &[(100usize, 10usize), (102, 51), (1000, 50), (37, 5), (500, 499), (64, 3)] {
        let raw: Vec<(f64, f64)> = (0..n)
            .map(|i| (i as f64 * 0.37, (i as f64 * 0.21).sin() * 3.0 + (i % 7) as f64))
            .collect();
        let data: Vec<DataPoint> = raw.iter().map(|&(x, y)| pt(x, y)).collect();
        let got: Vec<(f64, f64)> =
            lttb_downsample(&data, t).iter().map(|p| (val(p.x), val(p.y))).collect();
        assert_eq!(got, hardware_lttb(&raw, t), "n = {n}, t = {t}");
    }
}
