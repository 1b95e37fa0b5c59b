use rust_bucketize::Float;

fn num(x: f64) -> Float {
    Float::from_bits(x.to_bits())
}

fn samples() -> Vec<f64> {
    vec![
        f64::NEG_INFINITY,
        f64::MIN,
        -1.0e300,
        -999.99,
        -4.0,
        -1.0,
        -0.7,
        -f64::MIN_POSITIVE,
        -f64::from_bits(1),
        -0.0,
        0.0,
        f64::from_bits(1),
        f64::from_bits(0x000f_ffff_ffff_ffff),
        f64::MIN_POSITIVE,
        0.1,
        0.5,
        1.0,
        1.0 + f64::EPSILON,
        3.9,
        4.0,
        7.5,
        10.0,
        12.34,
        999.99,
        1.0e300,
        f64::MAX,
        f64::INFINITY,
        f64::NAN,
        -f64::NAN,
        f64::from_bits(0x7ff0_0000_0000_0001),
        f64::from_bits(0xffff_ffff_ffff_ffff),
    ]
}

#[test]
fn bits_round_trip() {
    for x in samples() {
        assert_eq!(num(x).to_bits(), x.to_bits());
    }
    assert_eq!(Float::from_bits(0x4010_0000_0000_0000).to_bits(), 4.0f64.to_bits());
    assert_eq!(Float::from_bits(0).to_bits(), 0);
    assert_eq!(Float::from_bits(u64::MAX).to_bits(), u64::MAX);
}

#[test]
fn is_nan_agrees_with_hardware() {
    for x in samples() {
        assert_eq!(num(x).is_nan(), x.is_nan(), "{:?}", x);
    }
}

#[test]
fn is_nan_on_encodings() {
    assert!(!Float::from_bits(0x7ff0_0000_0000_0000).is_nan());
    assert!(!Float::from_bits(0xfff0_0000_0000_0000).is_nan());
    assert!(Float::from_bits(0x7ff0_0000_0000_0001).is_nan());
    assert!(Float::from_bits(0xfff0_0000_0000_0001).is_nan());
    assert!(Float::from_bits(0x7ff8_0000_0000_0000).is_nan());
    assert!(Float::from_bits(u64::MAX).is_nan());
    assert!(!Float::from_bits(0x7fef_ffff_ffff_ffff).is_nan());
    assert!(!Float::from_bits(0).is_nan());
    assert!(!Float::from_bits(0x8000_0000_0000_0000).is_nan());
}

#[test]
fn is_sign_negative_agrees_with_hardware() {
    for x in samples() {
        assert_eq!(num(x).is_sign_negative(), x.is_sign_negative(), "{:?}", x);
    }
    assert!(num(-0.0).is_sign_negative());
    assert!(!num(0.0).is_sign_negative());
}

#[test]
fn lt_agrees_with_hardware() {
    for x in samples() {
        for y in samples() {
            assert_eq!(num(x).lt(num(y)), x < y, "{:?} < {:?}", x, y);
        }
    }
}

#[test]
fn ge_agrees_with_hardware() {
    for x in samples() {
        for y in samples() {
            assert_eq!(num(x).ge(num(y)), x >= y, "{:?} >= {:?}", x, y);
        }
    }
}

#[test]
fn eq_agrees_with_hardware() {
    for x in samples() {
        for y in samples() {
            assert_eq!(num(x) == num(y), x == y, "{:?} == {:?}", x, y);
            assert_eq!(num(x) != num(y), x != y, "{:?} != {:?}", x, y);
        }
    }
}

#[test]
fn comparisons_on_chosen_numbers() {
    assert!(num(1.0).lt(num(2.0)));
    assert!(!num(2.0).lt(num(1.0)));
    assert!(!num(2.0).lt(num(2.0)));
    assert!(num(2.0).ge(num(2.0)));
    assert!(num(-2.0).lt(num(-1.0)));
    assert!(num(-1.0).ge(num(-2.0)));
    assert!(num(-1.0).lt(num(1.0)));
    assert!(!num(1.0).lt(num(-1.0)));
    assert!(num(3.9).lt(num(4.0)));
    assert!(!num(4.0).lt(num(4.0)));
}

#[test]
fn zeros_are_equal_and_neither_is_below_the_other() {
    assert!(!num(-0.0).lt(num(0.0)));
    assert!(!num(0.0).lt(num(-0.0)));
    assert!(num(-0.0).ge(num(0.0)));
    assert!(num(0.0).ge(num(-0.0)));
    assert!(num(-0.0) == num(0.0));
    assert_ne!(num(-0.0).to_bits(), num(0.0).to_bits());
}

#[test]
fn nan_compares_false_with_everything() {
    let nan = num(f64::NAN);
    for x in samples() {
        assert!(!nan.lt(num(x)));
        assert!(!num(x).lt(nan));
        assert!(!nan.ge(num(x)));
        assert!(!num(x).ge(nan));
        assert!(nan != num(x));
    }
    assert!(nan != nan);
}

#[test]
fn infinities_are_outermost() {
    let inf = num(f64::INFINITY);
    let neg = num(f64::NEG_INFINITY);
    for x in samples() {
        if x.is_nan() {
            continue;
        }
        assert!(inf.ge(num(x)));
        assert!(num(x).ge(neg));
        assert_eq!(num(x).lt(inf), x != f64::INFINITY);
        assert_eq!(neg.lt(num(x)), x != f64::NEG_INFINITY);
    }
}

#[test]
fn neighbouring_encodings_are_ordered() {
    let starts: [u64; 6] = [
        0,
        0x000f_ffff_ffff_fffe,
        0x3ff0_0000_0000_0000,
        0x4010_0000_0000_0000,
        0x7fef_ffff_ffff_fffe,
        0x7fef_ffff_ffff_ffff,
    ];
    for s in starts {
        let below = Float::from_bits(s);
        let above = Float::from_bits(s + 1);
        assert!(below.lt(above));
        assert!(!above.lt(below));
        assert!(above.ge(below));
        let neg_below = Float::from_bits(s | 0x8000_0000_0000_0000);
        let neg_above = Float::from_bits((s + 1) | 0x8000_0000_0000_0000);
        assert!(neg_above.lt(neg_below));
        assert!(neg_below.ge(neg_above));
    }
}
