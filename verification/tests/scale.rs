use lodviz_core::number::float::Float;
use lodviz_core::model::scale::{BandScale, LinearScale, LogScale, Scale, TimeScale};

const EPSILON: f64 = 1e-10;

fn fl(x: f64) -> Float {
    Float::from_bits(x.to_bits())
}

fn val(x: Float) -> f64 {
    f64::from_bits(x.to_bits())
}

fn pair(a: f64, b: f64) -> (Float, Float) {
    (fl(a), fl(b))
}

fn approx_eq(a: Float, b: f64) -> bool {
    (val(a) - b).abs() < EPSILON
}

fn cat(names: &[&str]) -> Vec<String> {
    names.iter().map(|s| (*s).to_string()).collect()
}

/// Maps through a logarithmic scale, taking the logarithms in hardware.
fn hardware_log_map(scale: &LogScale, value: f64) -> f64 {
    let base = val(scale.base());
    let (d0, d1) = scale.domain();
    let logs = pair(val(d0).log(base), val(d1).log(base));
    val(scale.map_logs(fl(value), fl(value.log(base)), logs))
}

#[test]
fn test_linear_scale_basic() {
    let scale = LinearScale::new(pair(0.0, 100.0), pair(0.0, 500.0));
    assert!(approx_eq(scale.map(fl(0.0)), 0.0));
    assert!(approx_eq(scale.map(fl(50.0)), 250.0));
    assert!(approx_eq(scale.map(fl(100.0)), 500.0));
}

#[test]
fn test_linear_scale_inverse() {
    let scale = LinearScale::new(pair(0.0, 100.0), pair(0.0, 500.0));
    assert!(approx_eq(scale.inverse(fl(0.0)), 0.0));
    assert!(approx_eq(scale.inverse(fl(250.0)), 50.0));
    assert!(approx_eq(scale.inverse(fl(500.0)), 100.0));
}

#[test]
fn test_linear_scale_negative_domain() {
    let scale = LinearScale::new(pair(-50.0, 50.0), pair(0.0, 100.0));
    assert!(approx_eq(scale.map(fl(-50.0)), 0.0));
    assert!(approx_eq(scale.map(fl(0.0)), 50.0));
    assert!(approx_eq(scale.map(fl(50.0)), 100.0));
}

#[test]
fn test_linear_scale_zero_width_domain() {
    let scale = LinearScale::new(pair(10.0, 10.0), pair(0.0, 100.0));
    // Should return range min for any value
    assert!(approx_eq(scale.map(fl(5.0)), 0.0));
    assert!(approx_eq(scale.map(fl(10.0)), 0.0));
    assert!(approx_eq(scale.map(fl(15.0)), 0.0));
}

#[test]
fn test_linear_scale_zero_width_range() {
    let scale = LinearScale::from_extent(fl(3.0), fl(9.0), fl(40.0), fl(40.0));
    assert_eq!(val(scale.inverse(fl(40.0))), 3.0);
    assert_eq!(val(scale.inverse(fl(-7.0))), 3.0);
    assert_eq!(val(scale.map(fl(6.0))), 40.0);
    assert_eq!(scale.domain(), pair(3.0, 9.0));
    assert_eq!(scale.range(), pair(40.0, 40.0));
}

#[test]
fn test_linear_scale_round_trip() {
    let scale = LinearScale::new(pair(-3.5, 12.25), pair(20.0, 740.0));
    for i in 0..=63 {
        let v = -3.5 + 15.75 * (i as f64) / 63.0;
        let back = val(scale.inverse(scale.map(fl(v))));
        assert!((back - v).abs() < 1e-9, "{v} came back as {back}");
    }
    let exact = (7.0 - -3.5) / (12.25 - -3.5) * (740.0 - 20.0) + 20.0;
    assert_eq!(val(scale.map(fl(7.0))), 20.0 + (7.0 - -3.5) / (12.25 - -3.5) * (740.0 - 20.0));
    assert!((exact - val(scale.map(fl(7.0)))).abs() < 1e-9);
}

#[test]
fn test_log_scale_basic() {
    let scale = LogScale::new(pair(1.0, 100.0), pair(0.0, 100.0));
    assert!(approx_eq(scale.map(fl(1.0)), 0.0));
    assert!(approx_eq(scale.map(fl(10.0)), 50.0));
    assert!(approx_eq(scale.map(fl(100.0)), 100.0));
}

#[test]
fn test_log_scale_inverse() {
    let scale = LogScale::new(pair(1.0, 100.0), pair(0.0, 100.0));
    assert!(approx_eq(scale.inverse(fl(0.0)), 1.0));
    assert!(approx_eq(scale.inverse(fl(50.0)), 10.0));
    assert!(approx_eq(scale.inverse(fl(100.0)), 100.0));
}

#[test]
fn test_log_scale_custom_base() {
    let scale = LogScale::with_base(pair(1.0, 8.0), pair(0.0, 300.0), fl(2.0));
    assert!(approx_eq(scale.map(fl(1.0)), 0.0));
    assert!(approx_eq(scale.map(fl(2.0)), 100.0));
    assert!(approx_eq(scale.map(fl(4.0)), 200.0));
    assert!(approx_eq(scale.map(fl(8.0)), 300.0));
}

#[test]
fn test_log_scale_clamps_negative() {
    let scale = LogScale::new(pair(1.0, 100.0), pair(0.0, 100.0));
    // Negative values should be clamped to range min
    assert!(approx_eq(scale.map(fl(-10.0)), 0.0));
    assert!(approx_eq(scale.map(fl(0.0)), 0.0));
}

#[test]
fn test_log_scale_with_given_logarithms() {
    let scale = LogScale::with_base(pair(0.5, 2000.0), pair(-10.0, 630.0), fl(7.0));
    for &v in &[0.5, 1.0, 3.0, 49.0, 1234.5, 2000.0, 1e6, 1e-6] {
        let own = val(scale.map(fl(v)));
        assert!((own - hardware_log_map(&scale, v)).abs() < 1e-9, "{v}");
        let back = val(scale.inverse(fl(own)));
        assert!((back - v).abs() <= v * 1e-12, "{v} came back as {back}");
    }
    assert_eq!(hardware_log_map(&scale, -1.0), -10.0);
}

#[test]
fn test_log_scale_rejects_bad_bounds() {
    let range = pair(0.0, 1.0);
    assert!(LogScale::try_with_base(pair(1.0, 100.0), range, fl(10.0)).is_some());
    assert!(LogScale::try_with_base(pair(0.0, 100.0), range, fl(10.0)).is_none());
    assert!(LogScale::try_with_base(pair(1.0, -100.0), range, fl(10.0)).is_none());
    assert!(LogScale::try_with_base(pair(1.0, 100.0), range, fl(1.0)).is_none());
    assert!(LogScale::try_with_base(pair(1.0, 100.0), range, fl(0.0)).is_none());
    assert!(LogScale::try_with_base(pair(1.0, 100.0), range, fl(f64::NAN)).is_none());
    let scale = LogScale::try_with_base(pair(2.0, 32.0), range, fl(2.0)).unwrap();
    assert_eq!(scale.domain(), pair(2.0, 32.0));
    assert_eq!(scale.range(), range);
    assert_eq!(val(scale.base()), 2.0);
    assert_eq!(val(LogScale::new(pair(1.0, 2.0), range).base()), 10.0);
}

#[test]
fn test_time_scale_basic() {
    // Unix timestamps: 2024-01-01 to 2024-12-31 (simplified)
    let year_start = 1_704_067_200.0; // 2024-01-01 00:00:00 UTC
    let year_end = 1_735_689_600.0; // 2024-12-31 00:00:00 UTC

    let scale = TimeScale::new(pair(year_start, year_end), pair(0.0, 1000.0));
    assert!(approx_eq(scale.map(fl(year_start)), 0.0));
    assert!(approx_eq(scale.map(fl(year_end)), 1000.0));

    // Mid-year should map to ~500
    let mid_year = (year_start + year_end) / 2.0;
    assert!(approx_eq(scale.map(fl(mid_year)), 500.0));
}

#[test]
fn test_time_scale_inverse() {
    let year_start = 1_704_067_200.0;
    let year_end = 1_735_689_600.0;

    let scale = TimeScale::new(pair(year_start, year_end), pair(0.0, 1000.0));
    assert!(approx_eq(scale.inverse(fl(0.0)), year_start));
    assert!(approx_eq(scale.inverse(fl(1000.0)), year_end));
    assert_eq!(scale.domain(), pair(year_start, year_end));
    assert_eq!(scale.range(), pair(0.0, 1000.0));
}

#[test]
fn test_band_scale_basic() {
    let scale = BandScale::new(cat(&["A", "B", "C"]), pair(0.0, 300.0), fl(0.0));
    assert!(approx_eq(scale.step(), 100.0));
    assert!(approx_eq(scale.band_width(), 100.0));
    assert!(approx_eq(scale.map_index(0), 0.0));
    assert!(approx_eq(scale.map_index(1), 100.0));
    assert!(approx_eq(scale.map_index(2), 200.0));
}

#[test]
fn test_band_scale_with_padding() {
    let scale = BandScale::new(cat(&["A", "B", "C"]), pair(0.0, 300.0), fl(0.2));
    // step = 100, padding_offset = 100 * 0.2 / 2 = 10
    // band_width = 100 * 0.8 = 80
    assert!(approx_eq(scale.step(), 100.0));
    assert!(approx_eq(scale.band_width(), 80.0));
    assert!(approx_eq(scale.map_index(0), 10.0));
    assert!(approx_eq(scale.map_index(1), 110.0));
    assert!(approx_eq(scale.map_index(2), 210.0));
}

#[test]
fn test_band_scale_center() {
    let scale = BandScale::new(cat(&["X", "Y"]), pair(0.0, 200.0), fl(0.0));
    // step=100, band=100, center at 50 and 150
    assert!(approx_eq(scale.map_index_center(0), 50.0));
    assert!(approx_eq(scale.map_index_center(1), 150.0));
}

#[test]
fn test_band_scale_map_category() {
    let scale = BandScale::new(cat(&["Apple", "Banana", "Cherry"]), pair(0.0, 600.0), fl(0.0));
    assert!(approx_eq(scale.map_category("Banana").unwrap(), 200.0));
    assert!(approx_eq(scale.map_category("Cherry").unwrap(), 400.0));
    assert!(scale.map_category("Missing").is_none());
}

#[test]
fn test_band_scale_map_category_first_match() {
    let scale = BandScale::new(cat(&["a", "b", "a", "c"]), pair(10.0, 50.0), fl(0.0));
    assert_eq!(val(scale.map_category("a").unwrap()), 10.0);
    assert_eq!(val(scale.map_category("c").unwrap()), 40.0);
    assert_eq!(scale.categories(), &cat(&["a", "b", "a", "c"]));
    assert_eq!(scale.range(), pair(10.0, 50.0));
    assert_eq!(scale.len(), 4);
}

#[test]
fn test_band_scale_single_category() {
    let scale = BandScale::new(cat(&["Only"]), pair(0.0, 500.0), fl(0.0));
    assert!(approx_eq(scale.step(), 500.0));
    assert!(approx_eq(scale.band_width(), 500.0));
    assert!(approx_eq(scale.map_index(0), 0.0));
}

#[test]
fn test_band_scale_empty() {
    let scale = BandScale::new(vec![], pair(0.0, 300.0), fl(0.0));
    assert!(scale.is_empty());
    assert_eq!(scale.len(), 0);
    assert!(approx_eq(scale.step(), 0.0));
    assert!(approx_eq(scale.band_width(), 0.0));
}

#[test]
fn test_band_scale_padding_clamped() {
    // Padding > 1.0 should be clamped to 1.0
    let scale = BandScale::new(cat(&["A", "B"]), pair(0.0, 200.0), fl(2.0));
    assert!(approx_eq(scale.band_width(), 0.0)); // fully padded
}

#[test]
fn test_band_scale_half_padding() {
    let scale = BandScale::new(cat(&["A", "B"]), pair(0.0, 200.0), fl(0.5));
    // step=100, band=50, pad_offset=25
    assert!(approx_eq(scale.step(), 100.0));
    assert!(approx_eq(scale.band_width(), 50.0));
    assert!(approx_eq(scale.map_index(0), 25.0));
    assert!(approx_eq(scale.map_index(1), 125.0));
}
