use titan_core::float::Float64;

fn d(x: f64) -> Float64 {
    Float64::from_bits(x.to_bits())
}

fn samples() -> Vec<f64> {
    vec![
        0.0,
        -0.0,
        1.0,
        -1.0,
        100.0,
        99.99,
        100.01,
        999_999.9,
        -20_000.0,
        -20_000.01,
        -19_999.99,
        f64::MIN_POSITIVE,
        -f64::MIN_POSITIVE,
        5e-324,
        -5e-324,
        f64::MAX,
        f64::MIN,
        f64::INFINITY,
        f64::NEG_INFINITY,
        f64::NAN,
        -f64::NAN,
        f64::from_bits(0x7ff0_0000_0000_0001),
        f64::from_bits(0xfff8_0000_0000_0000),
        1e300,
        -1e300,
        0.1,
        0.3,
    ]
}

#[test]
fn comparisons_agree_with_hardware_doubles() {
    let values = samples();
    for &a in &values {
        for &b in &values {
            assert_eq!(d(a).lt(d(b)), a < b, "{a:?} < {b:?}");
            assert_eq!(d(a).le(d(b)), a <= b, "{a:?} <= {b:?}");
            assert_eq!(d(a).gt(d(b)), a > b, "{a:?} > {b:?}");
            assert_eq!(d(a).ge(d(b)), a >= b, "{a:?} >= {b:?}");
        }
    }
}

#[test]
fn is_nan_agrees_with_hardware_doubles() {
    for &a in &samples() {
        assert_eq!(d(a).is_nan(), a.is_nan(), "{a:?}");
    }
}

#[test]
fn both_zeros_compare_equal() {
    assert!(d(0.0).le(d(-0.0)));
    assert!(d(-0.0).le(d(0.0)));
    assert!(!d(-0.0).lt(d(0.0)));
    assert_ne!(d(0.0), d(-0.0));
}

#[test]
fn nan_is_below_nothing_and_above_nothing() {
    let nan = d(f64::NAN);
    assert!(!nan.lt(d(1.0)));
    assert!(!nan.ge(d(1.0)));
    assert!(!d(1.0).le(nan));
    assert!(!nan.le(nan));
}

#[test]
fn bits_round_trip() {
    assert_eq!(Float64::from_bits(0x4059_0000_0000_0000).to_bits(), 100.0f64.to_bits());
    assert_eq!(d(999_999.9).to_bits(), 0x412e_847f_cccc_cccd);
    assert_eq!(d(-20_000.0).to_bits(), 0xc0d3_8800_0000_0000);
}
