use betadog::expr::Const;
use betadog::float::FloatTask;
use betadog::rat::Rat;
use std::cmp::Ordering;

fn rounding(task: FloatTask) -> u64 {
    match task {
        FloatTask::FromInt(i) => (i as f64).to_bits(),
        FloatTask::Add(a, b) => (f64::from_bits(a) + f64::from_bits(b)).to_bits(),
        FloatTask::Mul(a, b) => (f64::from_bits(a) * f64::from_bits(b)).to_bits(),
        FloatTask::Div(a, b) => (f64::from_bits(a) / f64::from_bits(b)).to_bits(),
    }
}

fn exact(_task: FloatTask) -> u64 {
    panic!("an exact comparison asked for a float operation")
}

fn double(x: f64) -> Const {
    Const::Float(x.to_bits())
}

fn ratio(n: i128, d: i128) -> Const {
    Const::Rat(Rat::new(n, d))
}

#[test]
fn undef_is_unordered() {
    assert_eq!(Const::Undef.partial_cmp(&Const::Undef, &exact), Some(Ordering::Equal));
    for c in [Const::Int(0), double(1.0), ratio(1, 2), Const::Inf, Const::NegInf] {
        assert_eq!(Const::Undef.partial_cmp(&c, &exact), None);
        assert_eq!(c.partial_cmp(&Const::Undef, &exact), None);
    }
}

#[test]
fn infinities_bound_everything() {
    assert_eq!(Const::Inf.partial_cmp(&Const::Inf, &exact), Some(Ordering::Equal));
    assert_eq!(Const::NegInf.partial_cmp(&Const::NegInf, &exact), Some(Ordering::Equal));
    assert_eq!(Const::Inf.partial_cmp(&Const::NegInf, &exact), Some(Ordering::Greater));
    assert_eq!(Const::NegInf.partial_cmp(&Const::Inf, &exact), Some(Ordering::Less));
    let others = [
        Const::Int(i128::MAX),
        Const::Int(i128::MIN),
        double(f64::INFINITY),
        double(f64::NEG_INFINITY),
        double(f64::NAN),
        ratio(1, 2),
    ];
    for c in others {
        assert_eq!(Const::Inf.partial_cmp(&c, &exact), Some(Ordering::Greater));
        assert_eq!(c.partial_cmp(&Const::Inf, &exact), Some(Ordering::Less));
        assert_eq!(Const::NegInf.partial_cmp(&c, &exact), Some(Ordering::Less));
        assert_eq!(c.partial_cmp(&Const::NegInf, &exact), Some(Ordering::Greater));
    }
}

#[test]
fn exact_values_compare_exactly() {
    assert_eq!(Const::Int(2).partial_cmp(&Const::Int(3), &exact), Some(Ordering::Less));
    assert_eq!(Const::Int(3).partial_cmp(&Const::Int(3), &exact), Some(Ordering::Equal));
    assert_eq!(Const::Int(3).partial_cmp(&Const::Int(-3), &exact), Some(Ordering::Greater));
    assert_eq!(
        Const::Int(i128::MIN).partial_cmp(&Const::Int(i128::MAX), &exact),
        Some(Ordering::Less)
    );
    assert_eq!(ratio(4, 9).partial_cmp(&ratio(1, 2), &exact), Some(Ordering::Less));
    assert_eq!(ratio(1, 2).partial_cmp(&Const::Int(1), &exact), Some(Ordering::Less));
    assert_eq!(Const::Int(1).partial_cmp(&ratio(1, 2), &exact), Some(Ordering::Greater));
    assert_eq!(ratio(-7, 2).partial_cmp(&Const::Int(-3), &exact), Some(Ordering::Less));
    assert_eq!(ratio(1, 3).partial_cmp(&ratio(1, 3), &exact), Some(Ordering::Equal));
    // beyond what a double tells apart
    let a = ratio(i128::MAX - 1, i128::MAX);
    let b = ratio(i128::MAX - 2, i128::MAX - 1);
    assert_eq!(a.partial_cmp(&b, &exact), Some(Ordering::Greater));
    assert_eq!(b.partial_cmp(&a, &exact), Some(Ordering::Less));
    assert_eq!(
        Const::Int(i128::MAX).partial_cmp(&Const::Int(i128::MAX - 1), &exact),
        Some(Ordering::Greater)
    );
}

#[test]
fn a_float_makes_it_a_comparison_of_floats() {
    assert_eq!(double(1.5).partial_cmp(&double(2.5), &exact), Some(Ordering::Less));
    assert_eq!(double(0.0).partial_cmp(&double(-0.0), &exact), Some(Ordering::Equal));
    assert_eq!(double(f64::NAN).partial_cmp(&double(f64::NAN), &exact), None);
    assert_eq!(double(f64::NAN).partial_cmp(&Const::Int(1), &rounding), None);
    assert_eq!(Const::Int(1).partial_cmp(&double(f64::NAN), &rounding), None);
    assert_eq!(Const::Int(1).partial_cmp(&double(1.5), &rounding), Some(Ordering::Less));
    assert_eq!(double(1.5).partial_cmp(&Const::Int(1), &rounding), Some(Ordering::Greater));
    assert_eq!(double(0.5).partial_cmp(&ratio(1, 2), &rounding), Some(Ordering::Equal));
    assert_eq!(ratio(1, 3).partial_cmp(&double(0.5), &rounding), Some(Ordering::Less));
    assert_eq!(
        double(f64::INFINITY).partial_cmp(&Const::Int(i128::MAX), &rounding),
        Some(Ordering::Greater)
    );
    // rounding loses the difference of one
    let big: i128 = 1 << 100;
    assert_eq!(
        Const::Int(big + 1).partial_cmp(&double(big as f64), &rounding),
        Some(Ordering::Equal)
    );
    assert_eq!(
        Const::Int(big + 1).partial_cmp(&Const::Int(big), &exact),
        Some(Ordering::Greater)
    );
}

#[test]
fn equality_of_values() {
    assert_eq!(Const::Int(1), Const::Int(1));
    assert_ne!(Const::Int(1), Const::Int(2));
    assert_ne!(Const::Int(1), ratio(1, 2));
    assert_ne!(Const::Int(1), double(1.0));
    assert_eq!(ratio(2, 4), ratio(1, 2));
    assert_eq!(double(0.0), double(-0.0));
    assert_ne!(double(f64::NAN), double(f64::NAN));
    assert_eq!(double(2.5), double(2.5));
    assert_eq!(Const::Inf, Const::Inf);
    assert_ne!(Const::Inf, Const::NegInf);
    assert_ne!(Const::Inf, double(f64::INFINITY));
    assert_eq!(Const::Undef, Const::Undef);
    assert_ne!(Const::Undef, Const::Inf);
}
