use betadog::float::{equal, is_nan, is_negative, is_zero, negate, rank, ONE, POSITIVE_INFINITY};
use betadog::order::order_of_floats;
use std::cmp::Ordering;

fn bits_of(x: f64) -> u64 {
    x.to_bits()
}

#[test]
fn classification_of_doubles() {
    assert!(is_nan(bits_of(f64::NAN)));
    assert!(is_nan(bits_of(-f64::NAN)));
    assert!(!is_nan(bits_of(f64::INFINITY)));
    assert!(!is_nan(bits_of(f64::NEG_INFINITY)));
    assert!(!is_nan(bits_of(1.5)));
    assert!(is_zero(bits_of(0.0)));
    assert!(is_zero(bits_of(-0.0)));
    assert!(!is_zero(bits_of(f64::MIN_POSITIVE)));
    assert!(is_negative(bits_of(-0.0)));
    assert!(is_negative(bits_of(-3.0)));
    assert!(!is_negative(bits_of(3.0)));
    assert_eq!(ONE, bits_of(1.0));
    assert_eq!(POSITIVE_INFINITY, bits_of(f64::INFINITY));
}

#[test]
fn negation_flips_the_sign() {
    for x in [0.0, -0.0, 1.0, -2.5, f64::INFINITY, f64::NEG_INFINITY, 1e-310, f64::MAX] {
        assert_eq!(negate(bits_of(x)), bits_of(-x));
    }
    assert_eq!(negate(bits_of(f64::NAN)), bits_of(-f64::NAN));
}

#[test]
fn order_of_doubles_is_that_of_their_values() {
    let samples = [
        f64::NEG_INFINITY,
        -1e300,
        -2.5,
        -1.0,
        -1e-310,
        -0.0,
        0.0,
        1e-310,
        0.5,
        1.0,
        3.14,
        1e300,
        f64::INFINITY,
        f64::NAN,
    ];
    for a in samples {
        for b in samples {
            assert_eq!(order_of_floats(bits_of(a), bits_of(b)), a.partial_cmp(&b));
            assert_eq!(equal(bits_of(a), bits_of(b)), a == b);
        }
    }
    assert_eq!(order_of_floats(bits_of(-0.0), bits_of(0.0)), Some(Ordering::Equal));
    assert_eq!(rank(bits_of(-0.0)), 0);
    assert!(rank(bits_of(-1.0)) < rank(bits_of(1.0)));
}
