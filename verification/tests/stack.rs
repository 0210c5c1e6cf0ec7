use lodviz_core::algorithms::stack::{stack_series, StackedValue};
use lodviz_core::number::float::Float;

fn fl(x: f64) -> Float {
    Float::from_bits(x.to_bits())
}

fn rows(input: &[&[f64]]) -> Vec<Vec<Float>> {
    input.iter().map(|r| r.iter().map(|&x| fl(x)).collect()).collect()
}

fn sv(y0: f64, y1: f64) -> StackedValue {
    StackedValue { y0: fl(y0), y1: fl(y1) }
}

#[test]
fn test_stack_single_series() {
    let input = rows(&[&[10.0, 20.0, 30.0]]);
    let result = stack_series(&input);
    assert_eq!(result.len(), 1);
    assert_eq!(result[0].values[0], sv(0.0, 10.0));
    assert_eq!(result[0].values[1], sv(0.0, 20.0));
    assert_eq!(result[0].values[2], sv(0.0, 30.0));
}

#[test]
fn test_stack_two_series() {
    let input = rows(&[&[10.0, 20.0], &[5.0, 15.0]]);
    let result = stack_series(&input);
    assert_eq!(result.len(), 2);
    // First series: starts at 0
    assert_eq!(result[0].values[0], sv(0.0, 10.0));
    assert_eq!(result[0].values[1], sv(0.0, 20.0));
    // Second series: starts where first ended
    assert_eq!(result[1].values[0], sv(10.0, 15.0));
    assert_eq!(result[1].values[1], sv(20.0, 35.0));
}

#[test]
fn test_stack_three_series() {
    let input = rows(&[&[1.0, 2.0], &[3.0, 4.0], &[5.0, 6.0]]);
    let result = stack_series(&input);
    assert_eq!(result[2].values[0], sv(4.0, 9.0));
    assert_eq!(result[2].values[1], sv(6.0, 12.0));
}

#[test]
fn test_stack_empty() {
    let result = stack_series(&[]);
    assert!(result.is_empty());
}

#[test]
fn test_stack_zeros() {
    let input = rows(&[&[0.0, 0.0], &[5.0, 10.0]]);
    let result = stack_series(&input);
    assert_eq!(result[0].values[0], sv(0.0, 0.0));
    assert_eq!(result[1].values[0], sv(0.0, 5.0));
}

#[test]
fn test_stack_series_index_and_ragged_rows() {
    let input = rows(&[&[1.0, 2.0], &[10.0], &[100.0, 200.0, 300.0]]);
    let result = stack_series(&input);
    let indices: Vec<usize> = result.iter().map(|s| s.series_index).collect();
    assert_eq!(indices, vec![0, 1, 2]);
    assert_eq!(result[1].values, vec![sv(1.0, 11.0)]);
    // The second category was not raised by the short series; the third has
    // no baseline because the first series has no third category.
    assert_eq!(result[2].values, vec![sv(11.0, 111.0), sv(2.0, 202.0), sv(0.0, 300.0)]);
}
