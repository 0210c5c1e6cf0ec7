use lodviz_core::algorithms::sorting::sort_ascending;
use lodviz_core::algorithms::statistics::{
    bin_count, box_plot_stats, ema, extent, gaussian_kde, histogram_bins,
    histogram_bins_with_shrink, kde_density, kde_exponents, kde_plan, linear_regression, mean,
    median, percentile_sorted, sma, std_dev, sturges_count, sum, Bin, BinRule,
};
use lodviz_core::number::float::Float;

const EPSILON: f64 = 1e-10;

fn fl(x: f64) -> Float {
    Float::from_bits(x.to_bits())
}

fn val(x: Float) -> f64 {
    f64::from_bits(x.to_bits())
}

fn floats(xs: &[f64]) -> Vec<Float> {
    xs.iter().map(|&x| fl(x)).collect()
}

fn vals(xs: &[Float]) -> Vec<f64> {
    xs.iter().map(|&x| val(x)).collect()
}

fn shrink(n: usize) -> Float {
    fl((n as f64).powf(-1.0 / 3.0))
}

fn pairs(ps: &[(f64, f64)]) -> Vec<(Float, Float)> {
    ps.iter().map(|&(x, y)| (fl(x), fl(y))).collect()
}

#[test]
fn test_extent_basic() {
    let data = floats(&[1.0, 5.0, 3.0, 9.0, 2.0]);
    let (min, max) = extent(&data).unwrap();
    assert!((val(min) - 1.0).abs() < EPSILON);
    assert!((val(max) - 9.0).abs() < EPSILON);
}

#[test]
fn test_extent_empty() {
    let data: Vec<Float> = vec![];
    assert!(extent(&data).is_none());
}

#[test]
fn test_extent_single() {
    let data = floats(&[42.0]);
    let (min, max) = extent(&data).unwrap();
    assert!((val(min) - 42.0).abs() < EPSILON);
    assert!((val(max) - 42.0).abs() < EPSILON);
}

#[test]
fn test_extent_negative() {
    let data = floats(&[-10.0, -5.0, -20.0, -1.0]);
    let (min, max) = extent(&data).unwrap();
    assert!((val(min) + 20.0).abs() < EPSILON);
    assert!((val(max) + 1.0).abs() < EPSILON);
}

#[test]
fn test_extent_skips_nan_after_a_number() {
    let data = floats(&[2.0, f64::NAN, -3.0, 7.0]);
    let (min, max) = extent(&data).unwrap();
    assert_eq!(val(min), -3.0);
    assert_eq!(val(max), 7.0);
}

#[test]
fn test_mean_basic() {
    let data = floats(&[1.0, 2.0, 3.0, 4.0, 5.0]);
    let avg = mean(&data).unwrap();
    assert!((val(avg) - 3.0).abs() < EPSILON);
}

#[test]
fn test_mean_empty() {
    let data: Vec<Float> = vec![];
    assert!(mean(&data).is_none());
}

#[test]
fn test_mean_single() {
    let data = floats(&[42.0]);
    let avg = mean(&data).unwrap();
    assert!((val(avg) - 42.0).abs() < EPSILON);
}

#[test]
fn test_sum_basic() {
    let data = floats(&[1.0, 2.0, 3.0, 4.0, 5.0]);
    let total = sum(&data);
    assert!((val(total) - 15.0).abs() < EPSILON);
}

#[test]
fn test_sum_empty() {
    let data: Vec<Float> = vec![];
    let total = sum(&data);
    assert!(val(total).abs() < EPSILON);
}

#[test]
fn test_sum_negative() {
    let data = floats(&[-1.0, -2.0, -3.0]);
    let total = sum(&data);
    assert!((val(total) + 6.0).abs() < EPSILON);
}

#[test]
fn test_sum_adds_in_order() {
    let xs = [0.1, 0.2, 0.3, 1e16, -1e16, 0.7];
    let expected = xs.iter().fold(0.0, |a, &b| a + b);
    assert_eq!(val(sum(&floats(&xs))), expected);
}

#[test]
fn test_bin_rule_default() {
    assert_eq!(BinRule::default(), BinRule::FreedmanDiaconis);
    assert_ne!(BinRule::Fixed(3), BinRule::Fixed(4));
}

#[test]
fn test_median_odd_count() {
    let mut data = floats(&[1.0, 3.0, 5.0, 7.0, 9.0]);
    let med = median(&mut data).unwrap();
    assert!((val(med) - 5.0).abs() < EPSILON);
}

#[test]
fn test_median_even_count() {
    let mut data = floats(&[1.0, 2.0, 3.0, 4.0]);
    let med = median(&mut data).unwrap();
    assert!((val(med) - 2.5).abs() < EPSILON);
}

#[test]
fn test_median_unsorted() {
    let mut data = floats(&[9.0, 1.0, 5.0, 3.0, 7.0]);
    let med = median(&mut data).unwrap();
    assert!((val(med) - 5.0).abs() < EPSILON);
}

#[test]
fn test_median_empty() {
    let mut data: Vec<Float> = vec![];
    assert!(median(&mut data).is_none());
}

#[test]
fn test_median_sorts_its_argument() {
    let mut data = floats(&[9.0, 1.0, 5.0, 3.0, 7.0, 1.0]);
    let med = median(&mut data).unwrap();
    assert_eq!(vals(&data), vec![1.0, 1.0, 3.0, 5.0, 7.0, 9.0]);
    assert_eq!(val(med), 4.0);
}

#[test]
fn test_sort_ascending_matches_std() {
    let xs = [3.5, -1.0, 0.0, -0.0, 1e300, -1e300, 2.0, 2.0, f64::INFINITY, -7.25, 0.1];
    let mut data = floats(&xs);
    sort_ascending(&mut data);
    let mut expected = xs.to_vec();
    expected.sort_by(|a, b| a.partial_cmp(b).unwrap());
    let got: Vec<u64> = data.iter().map(|x| x.to_bits()).collect();
    let want: Vec<u64> = expected.iter().map(|x| x.to_bits()).collect();
    assert_eq!(got, want);
    let mut empty: Vec<Float> = vec![];
    sort_ascending(&mut empty);
    assert!(empty.is_empty());
}

#[test]
fn test_std_dev_basic() {
    let data = floats(&[2.0, 4.0, 4.0, 4.0, 5.0, 5.0, 7.0, 9.0]);
    let sd = std_dev(&data).unwrap();
    // Expected std dev ≈ 2.0
    assert!((val(sd) - 2.138).abs() < 0.01);
}

#[test]
fn test_std_dev_insufficient_data() {
    let data = floats(&[5.0]);
    assert!(std_dev(&data).is_none());
}

#[test]
fn test_std_dev_zero_variance() {
    let data = floats(&[5.0, 5.0, 5.0, 5.0]);
    let sd = std_dev(&data).unwrap();
    assert!(val(sd).abs() < EPSILON);
}

#[test]
fn test_std_dev_divides_by_n_minus_one() {
    let data = floats(&[1.0, 3.0]);
    assert_eq!(val(std_dev(&data).unwrap()), 2.0f64.sqrt());
    assert!(std_dev(&floats(&[])).is_none());
}

#[test]
fn test_percentile_sorted_interpolates() {
    let data = floats(&[10.0, 20.0, 30.0, 40.0]);
    assert_eq!(val(percentile_sorted(&data, fl(0.0))), 10.0);
    assert_eq!(val(percentile_sorted(&data, fl(1.0))), 40.0);
    assert_eq!(val(percentile_sorted(&data, fl(0.5))), 25.0);
    assert_eq!(val(percentile_sorted(&data, fl(0.25))), 17.5);
    assert_eq!(val(percentile_sorted(&floats(&[7.0]), fl(0.9))), 7.0);
    assert_eq!(val(percentile_sorted(&floats(&[]), fl(0.5))), 0.0);
}

#[test]
fn test_box_plot_basic() {
    let mut data: Vec<Float> = (1..=9).map(|i| fl(i as f64)).collect();
    let stats = box_plot_stats(&mut data).unwrap();
    // Q1=3, median=5, Q3=7 for [1,2,3,4,5,6,7,8,9]
    assert!((val(stats.median) - 5.0).abs() < 0.01);
    assert!((val(stats.q1) - 3.0).abs() < 0.01);
    assert!((val(stats.q3) - 7.0).abs() < 0.01);
    assert!((val(stats.iqr) - 4.0).abs() < 0.01);
}

#[test]
fn test_box_plot_empty() {
    let mut data: Vec<Float> = vec![];
    assert!(box_plot_stats(&mut data).is_none());
}

#[test]
fn test_box_plot_outliers_detected() {
    // 100 is a clear outlier from a [1..10] distribution
    let mut data: Vec<Float> = (1..=10)
        .map(|i| fl(i as f64))
        .chain(std::iter::once(fl(100.0)))
        .collect();
    let stats = box_plot_stats(&mut data).unwrap();
    assert!(stats.outliers.contains(&fl(100.0)));
}

#[test]
fn test_box_plot_whiskers_are_data_values() {
    let mut data = floats(&[100.0, 4.0, 2.0, 8.0, 6.0, 10.0, 1.0, 3.0, 5.0, 7.0, 9.0, -50.0]);
    let stats = box_plot_stats(&mut data).unwrap();
    assert_eq!(val(stats.q1), 2.75);
    assert_eq!(val(stats.median), 5.5);
    assert_eq!(val(stats.q3), 8.25);
    assert_eq!(val(stats.iqr), 5.5);
    assert_eq!(val(stats.lower_whisker), 1.0);
    assert_eq!(val(stats.upper_whisker), 10.0);
    assert_eq!(vals(&stats.outliers), vec![-50.0, 100.0]);
    assert_eq!(val(stats.mean), 105.0 / 12.0);
    assert_eq!(val(data[0]), -50.0);
    assert_eq!(val(data[11]), 100.0);
}

#[test]
fn test_histogram_fixed_bins() {
    let data: Vec<Float> = (0..100).map(|i| fl(i as f64)).collect();
    let bins = histogram_bins(&data, BinRule::Fixed(10));
    assert_eq!(bins.len(), 10);
    let total: usize = bins.iter().map(|b| b.count).sum();
    assert_eq!(total, 100);
}

#[test]
fn test_histogram_empty() {
    let bins = histogram_bins(&[], BinRule::Fixed(5));
    assert!(bins.is_empty());
}

#[test]
fn test_histogram_sturges_range() {
    // 100 points → Sturges: ~8 bins
    let data: Vec<Float> = (0..100).map(|i| fl(i as f64)).collect();
    let bins = histogram_bins(&data, BinRule::Sturges);
    assert!(!bins.is_empty());
    let total: usize = bins.iter().map(|b| b.count).sum();
    assert_eq!(total, data.len());
}

#[test]
fn test_histogram_bin_edges_and_counts() {
    let data = floats(&[0.0, 1.0, 2.0, 3.0, 4.0, 5.0, 6.0, 7.0, 8.0]);
    let bins = histogram_bins(&data, BinRule::Fixed(4));
    let expected = vec![
        Bin { x0: fl(0.0), x1: fl(2.0), count: 2 },
        Bin { x0: fl(2.0), x1: fl(4.0), count: 2 },
        Bin { x0: fl(4.0), x1: fl(6.0), count: 2 },
        Bin { x0: fl(6.0), x1: fl(8.0), count: 3 },
    ];
    assert_eq!(bins, expected);
}

#[test]
fn test_histogram_degenerate_single_bin() {
    let data = floats(&[3.0, 3.0, 3.0]);
    let bins = histogram_bins(&data, BinRule::Fixed(7));
    assert_eq!(bins, vec![Bin { x0: fl(3.0), x1: fl(4.0), count: 3 }]);
}

#[test]
fn test_histogram_zero_fixed_bins_gives_one() {
    let data = floats(&[1.0, 2.0, 5.0]);
    let bins = histogram_bins(&data, BinRule::Fixed(0));
    assert_eq!(bins, vec![Bin { x0: fl(1.0), x1: fl(5.0), count: 3 }]);
}

#[test]
fn test_sturges_count_values() {
    assert_eq!(sturges_count(0), 1);
    assert_eq!(sturges_count(1), 1);
    assert_eq!(sturges_count(2), 2);
    assert_eq!(sturges_count(3), 3);
    assert_eq!(sturges_count(4), 3);
    assert_eq!(sturges_count(5), 4);
    assert_eq!(sturges_count(100), 8);
    assert_eq!(sturges_count(1024), 11);
    assert_eq!(sturges_count(1025), 12);
    for n in 1..2000usize {
        assert_eq!(sturges_count(n), (n as f64).log2().ceil() as usize + 1, "{n}");
    }
}

#[test]
fn test_bin_count_rules() {
    let xs: Vec<f64> = (0..100).map(|i| i as f64).collect();
    let data = floats(&xs);
    let n = xs.len() as f64;
    assert_eq!(bin_count(&data, BinRule::Sturges, shrink(100)), 8);
    assert_eq!(bin_count(&data, BinRule::Fixed(12), shrink(100)), 12);
    assert_eq!(bin_count(&data, BinRule::Fixed(0), shrink(100)), 1);
    let mean = xs.iter().sum::<f64>() / n;
    let sd = (xs.iter().map(|x| (x - mean).powi(2)).sum::<f64>() / (n - 1.0)).sqrt();
    let scott = (99.0 / (3.49 * sd * n.powf(-1.0 / 3.0))).ceil() as usize;
    assert_eq!(bin_count(&data, BinRule::Scott, shrink(100)), scott);
    let iqr = 74.25 - 24.75;
    let fd = (99.0 / (2.0 * iqr * n.powf(-1.0 / 3.0))).ceil() as usize;
    assert_eq!(bin_count(&data, BinRule::FreedmanDiaconis, shrink(100)), fd);
    assert_eq!(bin_count(&data, BinRule::default(), shrink(100)), fd);
}

#[test]
fn test_bin_count_freedman_diaconis_falls_back_to_sturges() {
    let data = floats(&[1.0, 5.0, 5.0, 5.0, 5.0, 5.0, 5.0, 9.0]);
    assert_eq!(bin_count(&data, BinRule::FreedmanDiaconis, shrink(8)), 4);
    let bins = histogram_bins(&data, BinRule::FreedmanDiaconis);
    assert_eq!(bins.len(), 4);
    let counts: Vec<usize> = bins.iter().map(|b| b.count).collect();
    assert_eq!(counts, vec![1, 0, 6, 1]);
}

#[test]
fn test_sma_basic() {
    let data = floats(&[1.0, 2.0, 3.0, 4.0, 5.0]);
    let result = sma(&data, 3);
    assert_eq!(result.len(), 3);
    assert!((val(result[0]) - 2.0).abs() < EPSILON);
    assert!((val(result[1]) - 3.0).abs() < EPSILON);
    assert!((val(result[2]) - 4.0).abs() < EPSILON);
}

#[test]
fn test_sma_window_too_large() {
    let data = floats(&[1.0, 2.0]);
    assert!(sma(&data, 5).is_empty());
}

#[test]
fn test_sma_window_one() {
    let data = floats(&[3.0, 5.0, 7.0]);
    let result = sma(&data, 1);
    assert_eq!(result, data);
}

#[test]
fn test_sma_window_zero_and_full() {
    let data = floats(&[3.0, 5.0, 10.0]);
    assert!(sma(&data, 0).is_empty());
    assert_eq!(vals(&sma(&data, 3)), vec![6.0]);
}

#[test]
fn test_ema_basic() {
    let data = floats(&[1.0, 2.0, 3.0]);
    let result = ema(&data, fl(0.5));
    assert_eq!(result.len(), 3);
    assert!((val(result[0]) - 1.0).abs() < EPSILON);
    // result[1] = 0.5*2 + 0.5*1 = 1.5
    assert!((val(result[1]) - 1.5).abs() < EPSILON);
}

#[test]
fn test_ema_empty() {
    assert!(ema(&[], fl(0.5)).is_empty());
}

#[test]
fn test_ema_alpha_zero_preserves_first() {
    // alpha=0 → never updates, stays at first value
    let data = floats(&[10.0, 20.0, 30.0]);
    let result = ema(&data, fl(0.0));
    assert!(result.iter().all(|&v| (val(v) - 10.0).abs() < EPSILON));
}

#[test]
fn test_ema_clamps_alpha() {
    let data = floats(&[10.0, 20.0, 30.0]);
    assert_eq!(vals(&ema(&data, fl(7.0))), vec![10.0, 20.0, 30.0]);
    assert_eq!(vals(&ema(&data, fl(-7.0))), vec![10.0, 10.0, 10.0]);
    assert_eq!(vals(&ema(&data, fl(0.25))), vec![10.0, 12.5, 16.875]);
}

#[test]
fn test_regression_perfect_line() {
    // y = 2x + 1
    let points: Vec<(Float, Float)> =
        (0..5).map(|i| (fl(i as f64), fl(2.0 * i as f64 + 1.0))).collect();
    let (b0, b1) = linear_regression(&points).unwrap();
    assert!((val(b0) - 1.0).abs() < 0.01, "intercept = {}", val(b0));
    assert!((val(b1) - 2.0).abs() < 0.01, "slope = {}", val(b1));
}

#[test]
fn test_regression_too_few_points() {
    let points = pairs(&[(1.0, 2.0)]);
    assert!(linear_regression(&points).is_none());
}

#[test]
fn test_regression_vertical_line() {
    // Identical X values → undefined slope
    let points = pairs(&[(1.0, 0.0), (1.0, 1.0), (1.0, 2.0)]);
    assert!(linear_regression(&points).is_none());
}

#[test]
fn test_regression_exact_values() {
    let points = pairs(&[(0.0, 1.0), (2.0, 2.0), (4.0, 6.0)]);
    let (b0, b1) = linear_regression(&points).unwrap();
    assert_eq!(val(b1), 1.25);
    assert_eq!(val(b0), 0.5);
}

#[test]
fn test_kde_basic() {
    let data = floats(&[0.0, 1.0, 2.0, 3.0, 4.0]);
    let kde = gaussian_kde(&data, 50).unwrap();
    assert_eq!(kde.xs.len(), 50);
    assert_eq!(kde.ys.len(), 50);
    // All densities must be non-negative
    assert!(kde.ys.iter().all(|&y| val(y) >= 0.0));
}

#[test]
fn test_kde_too_few_points() {
    let data = floats(&[1.0]);
    assert!(gaussian_kde(&data, 50).is_none());
}

#[test]
fn test_kde_peak_near_data_center() {
    // Symmetric data: peak density should be near the center
    let data: Vec<Float> = (0..11).map(|i| fl(i as f64 - 5.0)).collect();
    let kde = gaussian_kde(&data, 101).unwrap();
    let max_idx = kde
        .ys
        .iter()
        .enumerate()
        .max_by(|a, b| val(*a.1).partial_cmp(&val(*b.1)).unwrap())
        .map(|(i, _)| i)
        .unwrap();
    let peak_x = val(kde.xs[max_idx]);
    assert!(peak_x.abs() < 1.0, "Peak should be near x=0, got {peak_x}");
}

#[test]
fn test_histogram_rules_agree_with_hardware_powers() {
    let xs: Vec<f64> = (0..200).map(|i| ((i * 37) % 101) as f64 * 0.73 + (i % 7) as f64).collect();
    let data = floats(&xs);
    for rule in [BinRule::Scott, BinRule::FreedmanDiaconis, BinRule::Sturges, BinRule::Fixed(9)] {
        let computed = histogram_bins(&data, rule);
        let supplied = histogram_bins_with_shrink(&data, rule, shrink(xs.len()));
        assert_eq!(computed, supplied, "{rule:?}");
        let total: usize = computed.iter().map(|b| b.count).sum();
        assert_eq!(total, xs.len());
    }
}

#[test]
fn test_kde_agrees_with_hardware() {
    let xs = [2.0, 4.0, 4.0, 5.0, 7.0, 9.0, 9.5];
    let data = floats(&xs);
    let kde = gaussian_kde(&data, 12).unwrap();
    let n = xs.len() as f64;
    let mean = xs.iter().sum::<f64>() / n;
    let sd = (xs.iter().map(|x| (x - mean).powi(2)).sum::<f64>() / (n - 1.0)).sqrt();
    let h = 1.06 * sd * n.powf(-0.2);
    let norm = 1.0 / (h * (2.0 * std::f64::consts::PI).sqrt() * n);
    let (lo, hi) = (2.0 - 3.0 * h, 9.5 + 3.0 * h);
    for i in 0..12 {
        let x = lo + (hi - lo) * i as f64 / 11.0;
        let y: f64 = xs.iter().map(|xi| norm * (-0.5 * ((x - xi) / h) * ((x - xi) / h)).exp()).sum();
        assert!((val(kde.xs[i]) - x).abs() < 1e-12);
        assert!((val(kde.ys[i]) - y).abs() < 1e-12, "{} against {y}", val(kde.ys[i]));
    }
    assert!(gaussian_kde(&data, 0).is_none());
    assert!(gaussian_kde(&floats(&[3.0, 3.0, 3.0]), 5).is_none());
    assert!(gaussian_kde(&floats(&[]), 5).is_none());
}

#[test]
fn test_kde_plan_values() {
    let xs = [2.0, 4.0, 4.0, 5.0, 7.0, 9.0];
    let data = floats(&xs);
    let n = xs.len() as f64;
    let shrink = n.powf(-0.2);
    assert!(kde_plan(&data, 0, fl(shrink)).is_none());
    assert!(kde_plan(&floats(&[3.0, 3.0, 3.0]), 10, fl(shrink)).is_none());
    let plan = kde_plan(&data, 5, fl(shrink)).unwrap();
    let mean = xs.iter().sum::<f64>() / n;
    let sd = (xs.iter().map(|x| (x - mean).powi(2)).sum::<f64>() / (n - 1.0)).sqrt();
    let h = 1.06 * sd * shrink;
    assert_eq!(val(plan.bandwidth), h);
    assert_eq!(val(plan.norm_factor), 1.0 / (h * (2.0 * std::f64::consts::PI).sqrt() * n));
    let (lo, hi) = (2.0 - 3.0 * h, 9.0 + 3.0 * h);
    let expected: Vec<f64> = (0..5).map(|i| lo + (hi - lo) * i as f64 / 4.0).collect();
    assert_eq!(vals(&plan.xs), expected);
    let one = kde_plan(&data, 1, fl(shrink)).unwrap();
    assert_eq!(vals(&one.xs), vec![lo]);
    let exponents = kde_exponents(&data, fl(4.0), plan.bandwidth);
    let z = (4.0 - 9.0) / h;
    assert_eq!(val(exponents[5]), -0.5 * z * z);
    assert_eq!(val(exponents[1]), -0.0);
    assert_eq!(val(kde_density(fl(0.5), &floats(&[1.0, 0.25, 0.125]))), 0.6875);
}
