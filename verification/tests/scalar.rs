// The scalar's view of a bit pattern against the machine's `f64`.

use raytracer::scalar::{
    Scalar, FIFTH_BITS, FOUR_FIFTHS_BITS, HALF_BITS, INFINITY_BITS, NINE_TENTHS_BITS, ONE_BITS, SEVEN_TENTHS_BITS,
    SIGN_BIT, TENTH_BITS, TEN_BITS, THREE_FIFTHS_BITS, TWO_HUNDRED_BITS,
};

fn scalar(x: f64) -> Scalar {
    Scalar::from_bits(x.to_bits())
}

fn samples() -> Vec<f64> {
    vec![
        0.0,
        -0.0,
        1.0,
        -1.0,
        0.5,
        -0.5,
        4.0,
        4.5,
        5.5,
        6.0,
        0.001,
        -0.001,
        255.0,
        1e-310,
        -1e-310,
        f64::MIN_POSITIVE,
        -f64::MIN_POSITIVE,
        f64::from_bits(1),
        -f64::from_bits(1),
        f64::MAX,
        f64::MIN,
        f64::EPSILON,
        1.0 + f64::EPSILON,
        1.0 - f64::EPSILON / 2.0,
        std::f64::consts::PI,
        -std::f64::consts::PI,
        f64::INFINITY,
        f64::NEG_INFINITY,
        f64::NAN,
        -f64::NAN,
        f64::from_bits(0x7FF0_0000_0000_0001),
        f64::from_bits(0xFFFF_FFFF_FFFF_FFFF),
    ]
}

#[test]
fn test_bits_round_trip() {
    for x in samples() {
        assert_eq!(scalar(x).to_bits(), x.to_bits());
        assert_eq!(scalar(x).bits, x.to_bits());
    }
}

#[test]
fn test_constants() {
    assert_eq!(Scalar::zero().to_bits(), 0.0_f64.to_bits());
    assert_eq!(Scalar::one().to_bits(), 1.0_f64.to_bits());
    assert_eq!(ONE_BITS, 1.0_f64.to_bits());
    assert_eq!(SIGN_BIT, (-0.0_f64).to_bits());
    assert_eq!(INFINITY_BITS, f64::INFINITY.to_bits());
}

#[test]
fn test_patterns_of_the_numbers_of_the_default_scene() {
    assert_eq!(TENTH_BITS, 0.1_f64.to_bits());
    assert_eq!(FIFTH_BITS, 0.2_f64.to_bits());
    assert_eq!(HALF_BITS, 0.5_f64.to_bits());
    assert_eq!(THREE_FIFTHS_BITS, 0.6_f64.to_bits());
    assert_eq!(SEVEN_TENTHS_BITS, 0.7_f64.to_bits());
    assert_eq!(FOUR_FIFTHS_BITS, 0.8_f64.to_bits());
    assert_eq!(NINE_TENTHS_BITS, 0.9_f64.to_bits());
    assert_eq!(TEN_BITS, 10.0_f64.to_bits());
    assert_eq!(TWO_HUNDRED_BITS, 200.0_f64.to_bits());
}

#[test]
fn test_is_nan_agrees_with_f64() {
    for x in samples() {
        assert_eq!(scalar(x).is_nan(), x.is_nan(), "{:?}", x);
    }
}

#[test]
fn test_is_sign_negative_agrees_with_f64() {
    for x in samples() {
        assert_eq!(scalar(x).is_sign_negative(), x.is_sign_negative(), "{:?}", x);
    }
}

#[test]
fn test_neg_agrees_with_f64() {
    for x in samples() {
        assert_eq!(scalar(x).neg().to_bits(), (-x).to_bits(), "{:?}", x);
        assert_eq!(scalar(x).neg().neg(), scalar(x));
    }
}

#[test]
fn test_lt_agrees_with_f64() {
    for a in samples() {
        for b in samples() {
            assert_eq!(scalar(a).lt(scalar(b)), a < b, "{:?} < {:?}", a, b);
        }
    }
}

#[test]
fn test_le_agrees_with_f64() {
    for a in samples() {
        for b in samples() {
            assert_eq!(scalar(a).le(scalar(b)), a <= b, "{:?} <= {:?}", a, b);
        }
    }
}

#[test]
fn test_rank_orders_like_f64() {
    for a in samples() {
        for b in samples() {
            if a.is_nan() || b.is_nan() {
                continue;
            }
            assert_eq!(scalar(a).rank() < scalar(b).rank(), a < b, "{:?} {:?}", a, b);
            assert_eq!(scalar(a).rank() == scalar(b).rank(), a == b, "{:?} {:?}", a, b);
        }
    }
}

#[test]
fn test_rank_exact_values() {
    assert_eq!(scalar(0.0).rank(), 0);
    assert_eq!(scalar(-0.0).rank(), 0);
    assert_eq!(scalar(1.0).rank(), 0x3FF0_0000_0000_0000);
    assert_eq!(scalar(-1.0).rank(), -0x3FF0_0000_0000_0000);
    assert_eq!(scalar(f64::from_bits(1)).rank(), 1);
    assert_eq!(scalar(f64::NEG_INFINITY).rank(), -0x7FF0_0000_0000_0000);
    assert_eq!(Scalar::from_bits(u64::MAX).rank(), -0x7FFF_FFFF_FFFF_FFFF);
}

#[test]
fn test_zero_signs_compare_equal() {
    assert!(scalar(0.0).le(scalar(-0.0)));
    assert!(scalar(-0.0).le(scalar(0.0)));
    assert!(!scalar(-0.0).lt(scalar(0.0)));
    assert_ne!(scalar(0.0), scalar(-0.0));
}

#[test]
fn test_nan_is_unordered() {
    let nan = scalar(f64::NAN);
    assert!(!nan.lt(nan));
    assert!(!nan.le(nan));
    assert!(!nan.le(scalar(1.0)));
    assert!(!scalar(1.0).le(nan));
}
