//! The order of the numeric tower.
//!
//! It is a partial order: the undefined value stands in no relation to any
//! other value, and a float that is not a number stands in none at all.

use crate::eval::{stands_for, to_float, to_rat};
use crate::expr::{Const, ConstView};
use crate::float::{accepts_all, float_is_nan, float_rank, is_nan, rank, FloatFn, FloatTask};
use std::cmp::Ordering;
use vstd::prelude::*;

verus! {

/// How two integers stand to each other.
pub open spec fn int_order(a: int, b: int) -> Ordering {
    if a < b {
        Ordering::Less
    } else if a == b {
        Ordering::Equal
    } else {
        Ordering::Greater
    }
}

/// How two doubles stand to each other: not at all if one of them is not a
/// number, else as their values do. The two zeros are equal.
pub open spec fn float_order(a: u64, b: u64) -> Option<Ordering> {
    if float_is_nan(a) || float_is_nan(b) {
        None
    } else {
        Some(int_order(float_rank(a), float_rank(b)))
    }
}

/// How two values stand to each other.
///
/// The undefined value equals itself and is unordered with every other
/// value. Positive infinity is above and negative infinity below every
/// other value. Integers and fractions compare exactly. A comparison with a
/// float is a comparison of floats: the other value is rounded first.
pub open spec fn compare(a: ConstView, b: ConstView, fl: FloatFn) -> Option<Ordering> {
    if a is Undef && b is Undef {
        Some(Ordering::Equal)
    } else if a is Undef || b is Undef {
        None
    } else if (a is Inf && b is Inf) || (a is NegInf && b is NegInf) {
        Some(Ordering::Equal)
    } else if a is Inf {
        Some(Ordering::Greater)
    } else if b is Inf {
        Some(Ordering::Less)
    } else if a is NegInf {
        Some(Ordering::Less)
    } else if b is NegInf {
        Some(Ordering::Greater)
    } else if a is Float || b is Float {
        float_order(a.float(fl), b.float(fl))
    } else {
        Some(a.ratio().order(b.ratio()))
    }
}

/// The order of two integers.
fn order_of_ints(a: i128, b: i128) -> (o: Ordering)
    ensures
        a < b ==> o == Ordering::Less,
        a == b ==> o == Ordering::Equal,
        a > b ==> o == Ordering::Greater,
{
    if a < b {
        Ordering::Less
    } else if a == b {
        Ordering::Equal
    } else {
        Ordering::Greater
    }
}

/// The order of two doubles.
pub fn order_of_floats(a: u64, b: u64) -> (o: Option<Ordering>)
    ensures
        o == float_order(a, b),
{
    if is_nan(a) || is_nan(b) {
        None
    } else {
        Some(order_of_ints(rank(a), rank(b)))
    }
}

impl Const {
    /// How `self` stands to `other`. `unit` rounds an integer or a fraction
    /// that is compared with a float.
    pub fn partial_cmp<F: Fn(FloatTask) -> u64>(&self, other: &Const, unit: &F) -> (o: Option<
        Ordering,
    >)
        requires
            accepts_all(unit),
        ensures
            forall|fl: FloatFn|
                stands_for(fl, unit, !(self is Float) && !(other is Float)) ==> o
                    == #[trigger] compare(self@, other@, fl),
    {
        match (*self, *other) {
            (Const::Undef, Const::Undef) => Some(Ordering::Equal),
            (Const::Undef, _) => None,
            (_, Const::Undef) => None,
            (Const::Inf, Const::Inf) => Some(Ordering::Equal),
            (Const::NegInf, Const::NegInf) => Some(Ordering::Equal),
            (Const::Inf, _) => Some(Ordering::Greater),
            (_, Const::Inf) => Some(Ordering::Less),
            (Const::NegInf, _) => Some(Ordering::Less),
            (_, Const::NegInf) => Some(Ordering::Greater),
            (Const::Float(_), Const::Int(_) | Const::Float(_) | Const::Rat(_))
            | (Const::Int(_) | Const::Rat(_), Const::Float(_)) => {
                let a = to_float(*self, unit);
                let b = to_float(*other, unit);
                order_of_floats(a, b)
            },
            (Const::Int(_) | Const::Rat(_), Const::Int(_) | Const::Rat(_)) => {
                let s = to_rat(*self).signum_of_difference(to_rat(*other));
                if s < 0 {
                    Some(Ordering::Less)
                } else if s == 0 {
                    Some(Ordering::Equal)
                } else {
                    Some(Ordering::Greater)
                }
            },
        }
    }
}

/// The order that `o` is, seen from the other side.
pub open spec fn reversed(o: Option<Ordering>) -> Option<Ordering> {
    match o {
        Some(Ordering::Less) => Some(Ordering::Greater),
        Some(Ordering::Equal) => Some(Ordering::Equal),
        Some(Ordering::Greater) => Some(Ordering::Less),
        None => None,
    }
}

/// The order turns around with its arguments.
pub proof fn lemma_compare_reversed(a: ConstView, b: ConstView, fl: FloatFn)
    ensures
        compare(b, a, fl) == reversed(compare(a, b, fl)),
{
}

/// Every value but a float that is not a number equals itself.
pub proof fn lemma_compare_reflexive(a: ConstView, fl: FloatFn)
    requires
        a matches ConstView::Float(bits) ==> !float_is_nan(bits),
    ensures
        compare(a, a, fl) == Some(Ordering::Equal),
{
}

} // verus!
