use betadog::rat::{gcd, simplify, Rat};

#[test]
fn test_rat() {
    let new_rat = |num, den| Rat::new(num, den);

    assert_eq!(new_rat(3, 5) + new_rat(2, 5), new_rat(1, 1));

    assert_eq!(new_rat(4, 9) + new_rat(9, 4), new_rat(97, 36));
    assert!(new_rat(4, 9) < new_rat(1, 2));
    assert_eq!(new_rat(1, 2), new_rat(2, 4));
    assert_eq!(new_rat(-1, 2).num(), -1);
}

#[test]
fn reduction_gives_lowest_terms_and_positive_denominator() {
    let r = Rat::new(2, 4);
    assert_eq!((r.num(), r.den()), (1, 2));
    let r = Rat::new(1, -2);
    assert_eq!((r.num(), r.den()), (-1, 2));
    let r = Rat::new(-6, -4);
    assert_eq!((r.num(), r.den()), (3, 2));
    let r = Rat::new(0, -7);
    assert_eq!((r.num(), r.den()), (0, 1));
    let r = Rat::new(84, 36);
    assert_eq!((r.num(), r.den()), (7, 3));
    assert_ne!(Rat::new(-1, 2), Rat::new(1, 2));
    assert_eq!(Rat::new(1, -2), Rat::new(-1, 2));
}

#[test]
fn reduction_at_the_limits() {
    let r = Rat::new(i128::MIN, 2);
    assert_eq!((r.num(), r.den()), (i128::MIN / 2, 1));
    let r = Rat::new(i128::MIN, i128::MIN);
    assert_eq!((r.num(), r.den()), (1, 1));
    let r = Rat::new(i128::MAX, i128::MAX);
    assert_eq!((r.num(), r.den()), (1, 1));
    assert_eq!(Rat::checked_new(i128::MIN, -1), None);
    assert_eq!(Rat::checked_new(1, i128::MIN), None);
    assert_eq!(Rat::checked_new(5, 0), None);
    assert_eq!(Rat::checked_new(6, 4), Some(Rat::new(3, 2)));
    assert_eq!(Rat::checked_new(i128::MIN, 1).map(|r| r.num()), Some(i128::MIN));
}

#[test]
fn gcd_and_simplify() {
    assert_eq!(gcd(12, 18), 6);
    assert_eq!(gcd(18, 12), 6);
    assert_eq!(gcd(0, 5), 5);
    assert_eq!(gcd(5, 0), 5);
    assert_eq!(gcd(0, 0), 0);
    assert_eq!(gcd(17, 5), 1);
    assert_eq!(gcd(1 << 127, 1 << 100), 1 << 100);
    assert_eq!(simplify((10, 4)), (5, 2));
    assert_eq!(simplify((10, -4)), (-5, 2));
    assert_eq!(simplify((-10, -4)), (5, 2));
    assert_eq!(simplify((0, 3)), (0, 1));
}

#[test]
fn exact_arithmetic() {
    assert_eq!(Rat::new(1, 2) - Rat::new(1, 3), Rat::new(1, 6));
    assert_eq!(Rat::new(1, 3) - Rat::new(1, 2), Rat::new(-1, 6));
    assert_eq!(Rat::new(2, 3) * Rat::new(3, 4), Rat::new(1, 2));
    assert_eq!(Rat::new(-2, 3) * Rat::new(3, 4), Rat::new(-1, 2));
    assert_eq!(Rat::new(1, 2) / Rat::new(3, 4), Rat::new(2, 3));
    assert_eq!(Rat::new(1, 2) / Rat::new(-3, 4), Rat::new(-2, 3));
    assert_eq!(-Rat::new(1, 2), Rat::new(-1, 2));
    assert_eq!(-Rat::new(-1, 2), Rat::new(1, 2));
    assert_eq!(Rat::from(7), Rat::new(7, 1));
    assert_eq!(Rat::from_int(-7), Rat::new(14, -2));
}

#[test]
fn assigning_operators() {
    let mut r = Rat::new(1, 2);
    r += Rat::new(1, 3);
    assert_eq!(r, Rat::new(5, 6));
    r -= Rat::new(1, 6);
    assert_eq!(r, Rat::new(2, 3));
    r *= Rat::new(3, 4);
    assert_eq!(r, Rat::new(1, 2));
    r /= Rat::new(1, 4);
    assert_eq!(r, Rat::new(2, 1));
}

#[test]
fn checked_arithmetic_reports_what_does_not_fit() {
    let big = Rat::from_int(i128::MAX);
    assert_eq!(big.checked_add(Rat::from_int(1)), None);
    assert_eq!(big.checked_mul(Rat::from_int(2)), None);
    assert_eq!(big.checked_sub(Rat::from_int(-1)), None);
    assert_eq!(Rat::new(1, i128::MAX).checked_mul(Rat::new(1, 2)), None);
    assert_eq!(Rat::new(1, 2).checked_div(Rat::from_int(0)), None);
    assert_eq!(Rat::from_int(i128::MIN).checked_neg(), None);
    assert_eq!(Rat::from_int(i128::MIN).checked_div(Rat::from_int(-1)), None);
    assert_eq!(Rat::new(1, 2).checked_add(Rat::new(1, 2)), Some(Rat::from_int(1)));
    assert_eq!(Rat::new(3, 4).checked_neg(), Some(Rat::new(-3, 4)));
    assert_eq!(big.checked_add(Rat::from_int(-1)), Some(Rat::from_int(i128::MAX - 1)));
}

#[test]
fn order_by_cross_multiplication() {
    assert!(Rat::new(4, 9) < Rat::new(1, 2));
    assert!(Rat::new(1, 2) > Rat::new(4, 9));
    assert!(Rat::new(-1, 2) < Rat::new(1, 3));
    assert!(Rat::new(-1, 2) < Rat::new(-1, 3));
    assert!(Rat::new(-1, 3) > Rat::new(-1, 2));
    assert!(Rat::new(1, 2) <= Rat::new(2, 4));
    assert!(Rat::new(1, 2) >= Rat::new(2, 4));
    assert!(!(Rat::new(1, 2) < Rat::new(2, 4)));
    assert_eq!(Rat::new(1, 2).signum_of_difference(Rat::new(1, 3)), 1);
    assert_eq!(Rat::new(1, 3).signum_of_difference(Rat::new(1, 2)), -1);
    assert_eq!(Rat::new(2, 6).signum_of_difference(Rat::new(1, 3)), 0);
}

#[test]
fn order_of_values_whose_cross_products_exceed_the_machine() {
    // (MAX - 1) / MAX < MAX / (MAX - 2): both products are near 2^254
    let a = Rat::new(i128::MAX - 1, i128::MAX);
    let b = Rat::new(i128::MAX, i128::MAX - 2);
    assert!(a < b);
    assert!(b > a);
    assert!(-a > -b);
    let c = Rat::new(i128::MAX - 2, i128::MAX - 1);
    assert!(c < a);
    assert!(Rat::new(i128::MIN, 3) < Rat::new(i128::MIN + 1, 3));
    assert!(Rat::new(i128::MIN, i128::MAX) < Rat::new(i128::MAX, i128::MAX - 1));
}
