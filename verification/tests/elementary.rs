use lodviz_core::number::float::Float;

fn fl(x: f64) -> Float {
    Float::from_bits(x.to_bits())
}

fn val(x: Float) -> f64 {
    f64::from_bits(x.to_bits())
}

/// The distance between two floats in units of the last place; 0 for two
/// NaNs.
fn ulps(a: f64, b: f64) -> u64 {
    if a.is_nan() && b.is_nan() {
        return 0;
    }
    if a.is_nan() || b.is_nan() {
        return u64::MAX;
    }
    let key = |x: f64| {
        let bits = x.to_bits() as i64;
        if bits < 0 {
            i64::MIN.wrapping_sub(bits)
        } else {
            bits
        }
    };
    key(a).abs_diff(key(b))
}

fn samples() -> Vec<f64> {
    let mut xs = vec![
        0.5, 1.0, 2.0, 3.0, 10.0, 100.0, 0.1, 1e-5, 1e5, 1.5, 2.4, 0.2, 1.0 / 3.0, 255.0, 1e-300,
        1e300, 5e-324, 2.2250738585072014e-308, 0.999999999, 1.000000001, 709.0, 745.0,
        std::f64::consts::E, std::f64::consts::PI,
    ];
    let mut state: u64 = 0x9e37_79b9_7f4a_7c15;
    for _ in 0..120 {
        state ^= state << 13;
        state ^= state >> 7;
        state ^= state << 17;
        xs.push((state % 1_000_000) as f64 / 997.0 + 1e-3);
    }
    xs
}

#[test]
fn test_ln_agrees_with_hardware() {
    for x in samples() {
        assert!(ulps(val(fl(x).ln()), x.ln()) <= 1, "ln {x:?}: {:?} against {:?}", val(fl(x).ln()), x.ln());
    }
    assert_eq!(val(fl(1.0).ln()), 0.0);
    assert_eq!(val(fl(0.0).ln()), f64::NEG_INFINITY);
    assert_eq!(val(fl(-0.0).ln()), f64::NEG_INFINITY);
    assert_eq!(val(fl(f64::INFINITY).ln()), f64::INFINITY);
    assert!(val(fl(-1.0).ln()).is_nan());
    assert!(val(fl(f64::NEG_INFINITY).ln()).is_nan());
    assert!(val(fl(f64::NAN).ln()).is_nan());
}

#[test]
fn test_exp_agrees_with_hardware() {
    for x in samples() {
        for y in [x, -x] {
            assert!(
                ulps(val(fl(y).exp()), y.exp()) <= 1,
                "exp {y:?}: {:?} against {:?}",
                val(fl(y).exp()),
                y.exp()
            );
        }
    }
    assert_eq!(val(fl(0.0).exp()), 1.0);
    assert_eq!(val(fl(-0.0).exp()), 1.0);
    assert_eq!(val(fl(710.0).exp()), f64::INFINITY);
    assert_eq!(val(fl(-746.0).exp()), 0.0);
    assert_eq!(val(fl(-745.0).exp()), 5e-324);
    assert_eq!(val(fl(f64::INFINITY).exp()), f64::INFINITY);
    assert_eq!(val(fl(f64::NEG_INFINITY).exp()), 0.0);
    assert!(val(fl(f64::NAN).exp()).is_nan());
}

#[test]
fn test_powf_agrees_with_hardware() {
    let powers = [-3.0, -1.0 / 3.0, -0.2, 0.5, 1.0, 2.0, 2.4, 7.0, -2.5, 0.001, 30.0, -30.0];
    for (i, x) in samples().into_iter().enumerate() {
        for &y in &powers[i % 4..i % 4 + 3] {
            let got = val(fl(x).powf(fl(y)));
            assert!(ulps(got, x.powf(y)) <= 1, "{x:?} ^ {y:?}: {got:?} against {:?}", x.powf(y));
        }
    }
    for &(x, y) in &[(2.0, 3.0), (4.0, 0.5), (10.0, 2.0), (0.25, -0.5), (27.0, 1.0 / 3.0)] {
        assert_eq!(val(fl(x).powf(fl(y))), x.powf(y), "{x:?} ^ {y:?}");
    }
    for &x in &[-8.0, -2.0, -1.0, -0.5, -1e10] {
        for &y in &[-3.0, -2.0, 1.0, 2.0, 3.0, 0.5, -1.5, 1e300] {
            let got = val(fl(x).powf(fl(y)));
            assert!(ulps(got, x.powf(y)) <= 1, "{x:?} ^ {y:?}: {got:?} against {:?}", x.powf(y));
        }
    }
}

#[test]
fn test_powf_special_values() {
    let specials = [
        0.0,
        -0.0,
        1.0,
        -1.0,
        0.5,
        -0.5,
        2.0,
        -2.0,
        3.0,
        -3.0,
        2.5,
        -2.5,
        f64::INFINITY,
        f64::NEG_INFINITY,
        f64::NAN,
        1e300,
        -1e300,
        5e-324,
    ];
    for &x in &specials {
        for &y in &specials {
            let got = val(fl(x).powf(fl(y)));
            let want = x.powf(y);
            assert!(
                ulps(got, want) <= 1 && got.is_sign_negative() == want.is_sign_negative()
                    || (got.is_nan() && want.is_nan()),
                "{x:?} ^ {y:?}: {got:?} against {want:?}"
            );
        }
    }
}

#[test]
fn test_log_to_a_base() {
    assert_eq!(val(fl(100.0).log(fl(10.0))), 100f64.ln() / 10f64.ln());
    assert_eq!(val(fl(8.0).log(fl(2.0))), 3.0);
    assert_eq!(val(fl(10.0).log(fl(10.0))), 1.0);
    assert_eq!(val(fl(1.0).log(fl(7.0))), 0.0);
}

#[test]
fn test_whole_and_odd() {
    assert!(fl(3.0).is_whole() && fl(3.0).is_odd());
    assert!(fl(-4.0).is_whole() && !fl(-4.0).is_odd());
    assert!(fl(0.0).is_whole() && !fl(0.0).is_odd());
    assert!(!fl(2.5).is_whole() && !fl(2.5).is_odd());
    assert!(fl(1e300).is_whole() && !fl(1e300).is_odd());
    assert!(fl(9007199254740991.0).is_odd());
    assert!(!fl(f64::NAN).is_whole());
    assert!(fl(1.5).is_finite() && !fl(f64::INFINITY).is_finite() && !fl(f64::NAN).is_finite());
}
