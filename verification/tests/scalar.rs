use ray_tracing_3d::scalar::Scalar;

fn encode(x: f64) -> Scalar {
    Scalar::from_bits(x.to_bits())
}

fn samples() -> Vec<f64> {
    vec![
        0.0,
        -0.0,
        1.0,
        -1.0,
        1e-12,
        -1e-12,
        0.5,
        2.0,
        -2.0,
        1.0 + f64::EPSILON,
        1.0 - f64::EPSILON / 2.0,
        f64::MIN_POSITIVE,
        -f64::MIN_POSITIVE,
        5e-324,
        -5e-324,
        f64::MAX,
        f64::MIN,
        f64::INFINITY,
        f64::NEG_INFINITY,
        f64::NAN,
        -f64::NAN,
        23.611665975469712,
        -154.0,
    ]
}

#[test]
fn constants_encode_the_numbers_they_are_named_after() {
    assert_eq!(Scalar::zero().to_bits(), 0.0_f64.to_bits());
    assert_eq!(Scalar::one().to_bits(), 1.0_f64.to_bits());
    assert_eq!(Scalar::epsilon().to_bits(), 1e-12_f64.to_bits());
    assert_eq!(Scalar::epsilon().negated().to_bits(), (-1e-12_f64).to_bits());
}

#[test]
fn from_bits_and_to_bits_are_inverse() {
    for x in samples() {
        assert_eq!(encode(x).to_bits(), x.to_bits());
    }
}

#[test]
fn is_nan_agrees_with_the_hardware() {
    for x in samples() {
        assert_eq!(encode(x).is_nan(), x.is_nan(), "{x}");
    }
}

#[test]
fn is_zero_agrees_with_the_hardware() {
    for x in samples() {
        assert_eq!(encode(x).is_zero(), x == 0.0, "{x}");
    }
}

#[test]
fn le_agrees_with_the_hardware() {
    for x in samples() {
        for y in samples() {
            assert_eq!(encode(x).le(encode(y)), x <= y, "{x} <= {y}");
        }
    }
}

#[test]
fn lt_agrees_with_the_hardware() {
    for x in samples() {
        for y in samples() {
            assert_eq!(encode(x).lt(encode(y)), x < y, "{x} < {y}");
        }
    }
}

#[test]
fn within_agrees_with_the_hardware() {
    for x in samples() {
        assert_eq!(
            encode(x).within(Scalar::zero(), Scalar::one()),
            (0. ..=1.).contains(&x),
            "{x}"
        );
        assert_eq!(
            encode(x).within(Scalar::epsilon().negated(), Scalar::epsilon()),
            (-1e-12..=1e-12).contains(&x),
            "{x}"
        );
    }
}

#[test]
fn negated_agrees_with_the_hardware() {
    for x in samples() {
        assert_eq!(encode(x).negated().to_bits(), (-x).to_bits(), "{x}");
    }
}

#[test]
fn ranks_at_most_orders_numbers_as_the_hardware_does() {
    for x in samples() {
        for y in samples() {
            if !x.is_nan() && !y.is_nan() {
                assert_eq!(encode(x).ranks_at_most(encode(y)), x <= y, "{x} <= {y}");
            }
        }
    }
}

#[test]
fn ranks_at_most_places_what_is_no_number_beyond_infinity() {
    let nan = encode(f64::from_bits(0x7ff8_0000_0000_0000));
    let minus_nan = encode(f64::from_bits(0xfff8_0000_0000_0000));
    assert!(encode(f64::INFINITY).ranks_at_most(nan));
    assert!(!nan.ranks_at_most(encode(f64::INFINITY)));
    assert!(minus_nan.ranks_at_most(encode(f64::NEG_INFINITY)));
    assert!(!encode(f64::NEG_INFINITY).ranks_at_most(minus_nan));
    assert!(nan.ranks_at_most(nan));
}
