use lodviz_core::number::float::Float;

fn fl(x: f64) -> Float {
    Float::from_bits(x.to_bits())
}

#[test]
fn test_to_fixed_rounds_half_to_even() {
    assert_eq!(fl(0.125).to_fixed(), "0.12");
    assert_eq!(fl(0.375).to_fixed(), "0.38");
    assert_eq!(fl(2.5).to_fixed(), "2.50");
    assert_eq!(fl(0.005).to_fixed(), "0.01");
    assert_eq!(fl(0.015).to_fixed(), "0.01");
    assert_eq!(fl(99.995).to_fixed(), "100.00");
    assert_eq!(fl(999.999).to_fixed(), "1000.00");
    assert_eq!(fl(-0.001).to_fixed(), "-0.00");
    assert_eq!(fl(-1.005).to_fixed(), "-1.00");
    assert_eq!(fl(7.0).to_fixed(), "7.00");
    assert_eq!(fl(0.0).to_fixed(), "0.00");
    assert_eq!(fl(-0.0).to_fixed(), "-0.00");
    assert_eq!(fl(1e21).to_fixed(), "1000000000000000000000.00");
}

#[test]
fn test_to_fixed_special_values() {
    assert_eq!(fl(f64::NAN).to_fixed(), "NaN");
    assert_eq!(fl(f64::INFINITY).to_fixed(), "inf");
    assert_eq!(fl(f64::NEG_INFINITY).to_fixed(), "-inf");
    assert!(fl(f64::INFINITY).is_infinite());
    assert!(fl(f64::NEG_INFINITY).is_infinite());
    assert!(!fl(f64::MAX).is_infinite());
    assert!(!fl(f64::NAN).is_infinite());
}

#[test]
fn test_to_fixed_agrees_with_std() {
    let mut cases: Vec<f64> = vec![
        f64::MAX,
        f64::MIN,
        f64::MIN_POSITIVE,
        5e-324,
        f64::EPSILON,
        1e-3,
        0.995,
        0.994999,
        1.0 / 3.0,
        2.0 / 3.0,
        std::f64::consts::PI,
        123456789.987654321,
        9007199254740993.0,
    ];
    for i in 0..4000 {
        cases.push(f64::from(i) / 8.0 - 250.0);
        cases.push(f64::from(i) * 0.005);
        cases.push(f64::from(i) * 0.001 - 2.0);
    }
    let mut state: u64 = 0x2545_f491_4f6c_dd1d;
    for _ in 0..3000 {
        state ^= state << 13;
        state ^= state >> 7;
        state ^= state << 17;
        let x = f64::from_bits(state);
        if x.is_finite() {
            cases.push(x);
        }
        cases.push((state % 2_000_001) as f64 / 1000.0 - 1000.0);
    }
    for x in cases {
        assert_eq!(fl(x).to_fixed(), format!("{x:.2}"), "{x:?}");
    }
}

#[test]
fn test_to_text_of_whole_numbers_agrees_with_std() {
    for i in -300..300i32 {
        let x = f64::from(i) * 1024.0;
        assert_eq!(fl(x).to_text(), x.to_string());
    }
    assert_eq!(fl(0.1).to_exact_text(), "0.1000000000000000055511151231257827021181583404541015625");
}

#[test]
fn test_to_text_special_values() {
    assert_eq!(fl(0.0).to_text(), "0");
    assert_eq!(fl(-0.0).to_text(), "-0");
    assert_eq!(fl(f64::NAN).to_text(), "NaN");
    assert_eq!(fl(f64::INFINITY).to_text(), "inf");
    assert_eq!(fl(f64::NEG_INFINITY).to_text(), "-inf");
    assert_eq!(fl(0.1).to_text(), "0.1");
    assert_eq!(fl(-2.72).to_text(), "-2.72");
    assert_eq!(fl(1e21).to_text(), "1000000000000000000000");
    assert_eq!(fl(1e-7).to_text(), "0.0000001");
    assert_eq!(fl(0.30000000000000004).to_text(), "0.30000000000000004");
    assert_eq!(fl(9007199254740993.0).to_text(), "9007199254740992");
    assert_eq!(fl(1704067200.0).to_text(), "1704067200");
}

#[test]
fn test_to_text_agrees_with_std() {
    let mut cases: Vec<f64> = vec![
        f64::MAX,
        f64::MIN,
        f64::MIN_POSITIVE,
        5e-324,
        f64::EPSILON,
        1e-3,
        0.995,
        1.0 / 3.0,
        2.0 / 3.0,
        std::f64::consts::PI,
        123456789.987654321,
        1e15,
        1e16,
        1e17,
        1e22,
        1e23,
        9.5,
        99.5,
        0.5,
        0.05,
        9.999999999999999e22,
        2.2250738585072011e-308,
        4.35,
        1.7976931348623157e308,
        0.000001,
        1e100,
    ];
    for i in 0..150 {
        cases.push(f64::from(i) / 8.0 - 7.0);
        cases.push(f64::from(i) * 0.001 - 0.05);
        cases.push(f64::from(i) * 1.1e10);
    }
    let mut state: u64 = 0x2545_f491_4f6c_dd1d;
    for _ in 0..150 {
        state ^= state << 13;
        state ^= state >> 7;
        state ^= state << 17;
        let x = f64::from_bits(state);
        if x.is_finite() {
            cases.push(x);
        }
        cases.push((state % 2_000_001) as f64 / 1000.0 - 1000.0);
    }
    for x in cases {
        assert_eq!(fl(x).to_text(), x.to_string(), "{x:?}");
    }
}
