//! The evaluator: from an expression tree to a value of the numeric tower.

use crate::arith::{
    collapse, float_free, lemma_fold_failure, spec_add, spec_div, spec_eval, spec_fold, spec_mul,
    spec_mul_infinity, spec_negate, spec_reciprocal, spec_sub, EvalError, Fold, NodeKind, Outcome,
};
use crate::expr::{Const, Expr, ExprView};
use crate::float::{
    accepts_all, computes, is_negative, is_nan, is_zero, negate, FloatFn, FloatTask, ONE,
};
use crate::rat::Rat;
use vstd::prelude::*;

verus! {

/// The outcome of an operation, as a mathematical value.
pub open spec fn outcome(r: Result<Const, EvalError>) -> Outcome {
    match r {
        Ok(c) => Ok(c@),
        Err(e) => Err(e),
    }
}

/// `fl` says what the unit returns wherever the unit is asked: nowhere, if
/// the operation is `exact`, and everywhere otherwise.
pub open spec fn stands_for<F: Fn(FloatTask) -> u64>(fl: FloatFn, unit: &F, exact: bool) -> bool {
    exact || computes(unit, fl)
}

/// A fraction as a value: an integer if its denominator is one.
pub fn eval_rat(r: Rat) -> (c: Const)
    ensures
        c@ == collapse(r@),
{
    if r.den() == 1 {
        Const::Int(r.num())
    } else {
        Const::Rat(r)
    }
}

/// The result of a checked operation on fractions, as a value.
fn rat_outcome(r: Option<Rat>) -> (c: Result<Const, EvalError>)
    ensures
        outcome(c) == match r {
            Some(x) => Outcome::Ok(collapse(x@)),
            None => Outcome::Err(EvalError::Overflow),
        },
{
    match r {
        Some(x) => Ok(eval_rat(x)),
        None => Err(EvalError::Overflow),
    }
}

/// An exact value as a fraction.
pub(crate) fn to_rat(c: Const) -> (r: Rat)
    requires
        c@.is_exact(),
    ensures
        r@ == c@.ratio(),
{
    match c {
        Const::Int(i) => Rat::from_int(i),
        Const::Rat(r) => r,
        _ => Rat::from_int(0),
    }
}

/// A finite value as a float.
pub(crate) fn to_float<F: Fn(FloatTask) -> u64>(c: Const, unit: &F) -> (bits: u64)
    requires
        accepts_all(unit),
        c@.is_finite(),
    ensures
        forall|fl: FloatFn| computes(unit, fl) ==> bits == #[trigger] c@.float(fl),
        c matches Const::Float(b) ==> bits == b,
{
    match c {
        Const::Int(i) => unit(FloatTask::FromInt(i)),
        Const::Float(bits) => bits,
        Const::Rat(r) => {
            let n = unit(FloatTask::FromInt(r.num()));
            let d = unit(FloatTask::FromInt(r.den()));
            unit(FloatTask::Div(n, d))
        },
        _ => 0,
    }
}

/// The sum of two values.
pub fn add_const<F: Fn(FloatTask) -> u64>(lhs: Const, rhs: Const, unit: &F) -> (r: Result<
    Const,
    EvalError,
>)
    requires
        accepts_all(unit),
    ensures
        forall|fl: FloatFn|
            stands_for(fl, unit, !(lhs is Float) && !(rhs is Float)) ==> outcome(r)
                == #[trigger] spec_add(lhs@, rhs@, fl),
        r matches Ok(Const::Float(_)) ==> lhs is Float || rhs is Float,
{
    match (lhs, rhs) {
        (Const::Undef, _) => Ok(Const::Undef),
        (_, Const::Undef) => Ok(Const::Undef),
        (Const::Int(i), Const::Int(j)) => match i.checked_add(j) {
            Some(sum) => Ok(Const::Int(sum)),
            None => Err(EvalError::Overflow),
        },
        (Const::Float(_), Const::Int(_) | Const::Float(_) | Const::Rat(_))
        | (Const::Int(_) | Const::Rat(_), Const::Float(_)) => {
            let a = to_float(lhs, unit);
            let b = to_float(rhs, unit);
            Ok(Const::Float(unit(FloatTask::Add(a, b))))
        },
        (Const::Rat(_), Const::Int(_))
        | (Const::Int(_), Const::Rat(_))
        | (Const::Rat(_), Const::Rat(_)) => rat_outcome(to_rat(lhs).checked_add(to_rat(rhs))),
        (Const::Inf, Const::NegInf) => Ok(Const::Undef),
        (Const::NegInf, Const::Inf) => Ok(Const::Undef),
        (_, Const::Inf) => Ok(Const::Inf),
        (Const::Inf, _) => Ok(Const::Inf),
        (_, Const::NegInf) => Ok(Const::NegInf),
        (Const::NegInf, _) => Ok(Const::NegInf),
    }
}

/// The value of opposite sign.
pub fn negate_const(c: Const) -> (r: Result<Const, EvalError>)
    ensures
        outcome(r) == spec_negate(c@),
        r matches Ok(Const::Float(_)) ==> c is Float,
{
    match c {
        Const::Int(i) => {
            if i == i128::MIN {
                Err(EvalError::Overflow)
            } else {
                Ok(Const::Int(-i))
            }
        },
        Const::Float(bits) => Ok(Const::Float(negate(bits))),
        Const::Rat(r) => {
            proof {
                r.lemma_view_fits();
            }
            match r.checked_neg() {
                Some(opposite) => Ok(Const::Rat(opposite)),
                None => Err(EvalError::Overflow),
            }
        },
        Const::Inf => Ok(Const::NegInf),
        Const::NegInf => Ok(Const::Inf),
        Const::Undef => Ok(Const::Undef),
    }
}

/// The difference of two values.
pub fn sub_const<F: Fn(FloatTask) -> u64>(lhs: Const, rhs: Const, unit: &F) -> (r: Result<
    Const,
    EvalError,
>)
    requires
        accepts_all(unit),
    ensures
        forall|fl: FloatFn|
            stands_for(fl, unit, !(lhs is Float) && !(rhs is Float)) ==> outcome(r)
                == #[trigger] spec_sub(lhs@, rhs@, fl),
        r matches Ok(Const::Float(_)) ==> lhs is Float || rhs is Float,
{
    if matches!(lhs, Const::Undef) || matches!(rhs, Const::Undef) {
        return Ok(Const::Undef);
    }
    match negate_const(rhs) {
        Ok(opposite) => add_const(lhs, opposite, unit),
        Err(e) => Err(e),
    }
}

/// Minus one, zero or one as the value is below, at or above zero.
fn signum_const(x: Const) -> (s: i8)
    ensures
        s == x@.signum(),
{
    match x {
        Const::Int(i) => if i < 0 {
            -1
        } else if i > 0 {
            1
        } else {
            0
        },
        Const::Float(bits) => if is_nan(bits) || is_zero(bits) {
            0
        } else if is_negative(bits) {
            -1
        } else {
            1
        },
        Const::Rat(r) => if r.num() < 0 {
            -1
        } else if r.num() > 0 {
            1
        } else {
            0
        },
        Const::Inf => 1,
        Const::NegInf => -1,
        Const::Undef => 0,
    }
}

/// The infinity of sign `s`, and the undefined value for no sign.
fn infinity_of_sign(s: i8) -> (c: Const)
    ensures
        c == if s < 0 {
            Const::NegInf
        } else if s > 0 {
            Const::Inf
        } else {
            Const::Undef
        },
{
    if s < 0 {
        Const::NegInf
    } else if s > 0 {
        Const::Inf
    } else {
        Const::Undef
    }
}

/// The product of positive infinity and `x`.
pub fn mul_infinity_const(x: Const) -> (c: Const)
    ensures
        c@ == spec_mul_infinity(x@),
        !(c is Float),
{
    infinity_of_sign(signum_const(x))
}

/// The product of two values.
pub fn mul_const<F: Fn(FloatTask) -> u64>(lhs: Const, rhs: Const, unit: &F) -> (r: Result<
    Const,
    EvalError,
>)
    requires
        accepts_all(unit),
    ensures
        forall|fl: FloatFn|
            stands_for(fl, unit, !(lhs is Float) && !(rhs is Float)) ==> outcome(r)
                == #[trigger] spec_mul(lhs@, rhs@, fl),
        r matches Ok(Const::Float(_)) ==> lhs is Float || rhs is Float,
{
    match (lhs, rhs) {
        (Const::Undef, _) => Ok(Const::Undef),
        (_, Const::Undef) => Ok(Const::Undef),
        (Const::Int(i), Const::Int(j)) => match i.checked_mul(j) {
            Some(product) => Ok(Const::Int(product)),
            None => Err(EvalError::Overflow),
        },
        (Const::Float(_), Const::Int(_) | Const::Float(_) | Const::Rat(_))
        | (Const::Int(_) | Const::Rat(_), Const::Float(_)) => {
            let a = to_float(lhs, unit);
            let b = to_float(rhs, unit);
            Ok(Const::Float(unit(FloatTask::Mul(a, b))))
        },
        (Const::Rat(_), Const::Int(_))
        | (Const::Int(_), Const::Rat(_))
        | (Const::Rat(_), Const::Rat(_)) => rat_outcome(to_rat(lhs).checked_mul(to_rat(rhs))),
        (Const::Inf, x) => Ok(mul_infinity_const(x)),
        (x, Const::Inf) => Ok(mul_infinity_const(x)),
        (Const::NegInf, x) => Ok(infinity_of_sign(-signum_const(x))),
        (x, Const::NegInf) => Ok(infinity_of_sign(-signum_const(x))),
    }
}

/// One over a value.
pub fn reciprocal_const<F: Fn(FloatTask) -> u64>(c: Const, unit: &F) -> (r: Result<
    Const,
    EvalError,
>)
    requires
        accepts_all(unit),
    ensures
        forall|fl: FloatFn|
            stands_for(fl, unit, !(c is Float)) ==> outcome(r) == #[trigger] spec_reciprocal(
                c@,
                fl,
            ),
        r matches Ok(Const::Float(_)) ==> c is Float,
{
    match c {
        Const::Int(i) => {
            if i == 0 {
                Ok(Const::Inf)
            } else {
                rat_outcome(Rat::checked_new(1, i))
            }
        },
        Const::Float(bits) => {
            if is_zero(bits) {
                if is_negative(bits) {
                    Ok(Const::NegInf)
                } else {
                    Ok(Const::Inf)
                }
            } else {
                Ok(Const::Float(unit(FloatTask::Div(ONE, bits))))
            }
        },
        Const::Rat(x) => {
            if x.num() == 0 {
                Ok(Const::Inf)
            } else {
                rat_outcome(Rat::from_int(1).checked_div(x))
            }
        },
        Const::Inf => Ok(Const::Int(0)),
        Const::NegInf => Ok(Const::Int(0)),
        Const::Undef => Ok(Const::Undef),
    }
}

/// The quotient of two values.
pub fn div_const<F: Fn(FloatTask) -> u64>(lhs: Const, rhs: Const, unit: &F) -> (r: Result<
    Const,
    EvalError,
>)
    requires
        accepts_all(unit),
    ensures
        forall|fl: FloatFn|
            stands_for(fl, unit, !(lhs is Float) && !(rhs is Float)) ==> outcome(r)
                == #[trigger] spec_div(lhs@, rhs@, fl),
        r matches Ok(Const::Float(_)) ==> lhs is Float || rhs is Float,
{
    if matches!(lhs, Const::Undef) || matches!(rhs, Const::Undef) {
        return Ok(Const::Undef);
    }
    match reciprocal_const(rhs, unit) {
        Ok(inverse) => mul_const(lhs, inverse, unit),
        Err(e) => Err(e),
    }
}

/// The operation of `op` on two values.
fn combine_const<F: Fn(FloatTask) -> u64>(op: Fold, lhs: Const, rhs: Const, unit: &F) -> (r: Result<
    Const,
    EvalError,
>)
    requires
        accepts_all(unit),
    ensures
        forall|fl: FloatFn|
            stands_for(fl, unit, !(lhs is Float) && !(rhs is Float)) ==> outcome(r)
                == #[trigger] op.combine(lhs@, rhs@, fl),
        r matches Ok(Const::Float(_)) ==> lhs is Float || rhs is Float,
{
    match op {
        Fold::Sum => add_const(lhs, rhs, unit),
        Fold::Prod => mul_const(lhs, rhs, unit),
    }
}

/// No float is among the constants of the children.
pub open spec fn children_float_free(children: Seq<ExprView>) -> bool {
    forall|i: int| 0 <= i < children.len() ==> float_free(#[trigger] children[i])
}

/// Folds the children of a `Sum` or `Prod` node from left to right.
fn eval_children<F: Fn(FloatTask) -> u64>(children: &Vec<Box<Expr>>, op: Fold, unit: &F) -> (r:
    Result<Const, EvalError>)
    requires
        accepts_all(unit),
    ensures
        forall|fl: FloatFn|
            stands_for(fl, unit, children_float_free(Expr::models(children))) ==> outcome(r)
                == #[trigger] spec_fold(Expr::models(children), op, fl),
        children_float_free(Expr::models(children)) ==> !(r matches Ok(Const::Float(_))),
    decreases children, 0nat,
{
    let ghost all = Expr::models(children);
    let ghost exact = children_float_free(all);
    if children.len() == 0 {
        return Ok(
            match op {
                Fold::Sum => Const::Int(0),
                Fold::Prod => Const::Int(1),
            },
        );
    }
    let mut acc = match eval_tree(&*children[0], unit) {
        Ok(first) => first,
        Err(e) => {
            proof {
                assert(exact ==> float_free(all[0]));
                assert forall|fl: FloatFn| stands_for(fl, unit, exact) implies Outcome::Err(e)
                    == #[trigger] spec_fold(all, op, fl) by {
                    assert(all.take(1) =~= seq![all[0]]);
                    assert(spec_fold(all.take(1), op, fl) == spec_eval(all[0], fl));
                    lemma_fold_failure(all, 1, op, fl);
                }
            }
            return Err(e);
        },
    };
    let mut i: usize = 1;
    proof {
        assert(all.take(1) =~= seq![all[0]]);
        assert(exact ==> float_free(all[0]));
        assert forall|fl: FloatFn| stands_for(fl, unit, exact) implies Outcome::Ok(acc@)
            == #[trigger] spec_fold(all.take(1), op, fl) by {
            assert(spec_fold(all.take(1), op, fl) == spec_eval(all[0], fl));
        }
    }
    while i < children.len()
        invariant
            1 <= i <= children.len(),
            accepts_all(unit),
            all == Expr::models(children),
            exact == children_float_free(all),
            forall|fl: FloatFn|
                stands_for(fl, unit, exact) ==> Outcome::Ok(acc@) == #[trigger] spec_fold(
                    all.take(i as int),
                    op,
                    fl,
                ),
            exact ==> !(acc is Float),
        decreases children.len() - i,
    {
        proof {
            assert(all.take(i + 1).drop_last() =~= all.take(i as int));
            assert(all.take(i + 1).last() == all[i as int]);
            assert(exact ==> float_free(all[i as int]));
        }
        let next = match eval_tree(&*children[i], unit) {
            Ok(next) => next,
            Err(e) => {
                proof {
                    assert forall|fl: FloatFn| stands_for(fl, unit, exact) implies Outcome::Err(e)
                        == #[trigger] spec_fold(all, op, fl) by {
                        assert(Outcome::Ok(acc@) == spec_fold(all.take(i as int), op, fl));
                        assert(spec_eval(all[i as int], fl) == Outcome::Err(e));
                        assert(spec_fold(all.take(i + 1), op, fl) == Outcome::Err(e));
                        lemma_fold_failure(all, i + 1, op, fl);
                    }
                }
                return Err(e);
            },
        };
        let ghost before = acc;
        acc = match combine_const(op, acc, next, unit) {
            Ok(folded) => folded,
            Err(e) => {
                proof {
                    assert forall|fl: FloatFn| stands_for(fl, unit, exact) implies Outcome::Err(e)
                        == #[trigger] spec_fold(all, op, fl) by {
                        assert(Outcome::Ok(before@) == spec_fold(all.take(i as int), op, fl));
                        assert(spec_eval(all[i as int], fl) == Outcome::Ok(next@));
                        assert(op.combine(before@, next@, fl) == Outcome::Err(e));
                        assert(spec_fold(all.take(i + 1), op, fl) == Outcome::Err(e));
                        lemma_fold_failure(all, i + 1, op, fl);
                    }
                }
                return Err(e);
            },
        };
        proof {
            assert forall|fl: FloatFn| stands_for(fl, unit, exact) implies Outcome::Ok(acc@)
                == #[trigger] spec_fold(all.take(i + 1), op, fl) by {
                assert(Outcome::Ok(before@) == spec_fold(all.take(i as int), op, fl));
                assert(spec_eval(all[i as int], fl) == Outcome::Ok(next@));
                assert(op.combine(before@, next@, fl) == Outcome::Ok(acc@));
            }
        }
        i += 1;
    }
    proof {
        assert(all.take(i as int) =~= all);
    }
    Ok(acc)
}

/// Evaluates a tree.
///
/// The outcome is `spec_eval` of the tree, with the unit's answers for the
/// float operations. An evaluation that reads no float never asks the unit,
/// and its outcome does not depend on it.
pub fn eval_tree<F: Fn(FloatTask) -> u64>(expr: &Expr, unit: &F) -> (r: Result<Const, EvalError>)
    requires
        accepts_all(unit),
    ensures
        forall|fl: FloatFn|
            stands_for(fl, unit, float_free(expr@)) ==> outcome(r) == #[trigger] spec_eval(
                expr@,
                fl,
            ),
        float_free(expr@) ==> !(r matches Ok(Const::Float(_))),
    decreases expr, 1nat,
{
    match expr {
        Expr::Sum(children) => {
            let r = eval_children(children, Fold::Sum, unit);
            proof {
                assert(float_free(expr@) == children_float_free(Expr::models(children)));
                assert forall|fl: FloatFn|
                    stands_for(fl, unit, float_free(expr@)) implies outcome(r)
                    == #[trigger] spec_eval(expr@, fl) by {
                    assert(outcome(r) == spec_fold(Expr::models(children), Fold::Sum, fl));
                }
            }
            r
        },
        Expr::Prod(children) => {
            let r = eval_children(children, Fold::Prod, unit);
            proof {
                assert(float_free(expr@) == children_float_free(Expr::models(children)));
                assert forall|fl: FloatFn|
                    stands_for(fl, unit, float_free(expr@)) implies outcome(r)
                    == #[trigger] spec_eval(expr@, fl) by {
                    assert(outcome(r) == spec_fold(Expr::models(children), Fold::Prod, fl));
                }
            }
            r
        },
        Expr::Neg(inner) => {
            let value = eval_tree(&**inner, unit);
            let r = match value {
                Ok(c) => negate_const(c),
                Err(e) => Err(e),
            };
            proof {
                assert forall|fl: FloatFn|
                    stands_for(fl, unit, float_free(expr@)) implies outcome(r)
                    == #[trigger] spec_eval(expr@, fl) by {
                    assert(outcome(value) == spec_eval(inner@, fl));
                }
            }
            r
        },
        Expr::Recipr(inner) => {
            let value = eval_tree(&**inner, unit);
            let r = match value {
                Ok(c) => reciprocal_const(c, unit),
                Err(e) => Err(e),
            };
            proof {
                assert forall|fl: FloatFn|
                    stands_for(fl, unit, float_free(expr@)) implies outcome(r)
                    == #[trigger] spec_eval(expr@, fl) by {
                    assert(outcome(value) == spec_eval(inner@, fl));
                    if let Ok(c) = value {
                        assert(outcome(r) == spec_reciprocal(c@, fl));
                    }
                }
            }
            r
        },
        Expr::Const(c) => Ok(*c),
        Expr::Pow(_, _) => Err(EvalError::UnsupportedOperation(NodeKind::Pow)),
        Expr::Call(_, _) => Err(EvalError::UnsupportedOperation(NodeKind::Call)),
        Expr::Var(_) => Err(EvalError::UnsupportedOperation(NodeKind::Var)),
    }
}

/// Evaluates an expression to a value of the numeric tower.
///
/// `unit` performs the float operations. The evaluation fails on a `Pow`,
/// `Call` or `Var` node, and where an exact result is not of machine size.
pub fn eval<F: Fn(FloatTask) -> u64>(expr: Expr, unit: F) -> (r: Result<Const, EvalError>)
    requires
        accepts_all(&unit),
    ensures
        forall|fl: FloatFn|
            stands_for(fl, &unit, float_free(expr@)) ==> outcome(r) == #[trigger] spec_eval(
                expr@,
                fl,
            ),
        float_free(expr@) ==> !(r matches Ok(Const::Float(_))),
{
    eval_tree(&expr, &unit)
}

} // verus!
