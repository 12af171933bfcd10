//! What the operations of the numeric tower compute, as mathematical
//! functions on the values' views.
//!
//! Integers and fractions are exact. An operation on them fails with
//! `Overflow` where a result, or a product of the cross-multiplication that
//! leads to it, is not of machine size. A float operand makes the operation
//! a float operation, which the arithmetic unit `fl` performs. The
//! infinities and the undefined value follow fixed rules.

use crate::expr::{ConstView, ExprView};
use crate::float::{
    float_above_zero, float_below_zero, float_is_negative, float_is_zero, float_negated, FloatFn,
    FloatTask, ONE,
};
use crate::rat::{int_fits, Ratio};
use vstd::prelude::*;

verus! {

/// A kind of node that has no value.
#[derive(Clone, Copy, PartialEq, Eq, Structural, Debug)]
pub enum NodeKind {
    Pow,
    Call,
    Var,
}

/// Why an evaluation has no result.
#[derive(Clone, Copy, PartialEq, Eq, Structural, Debug)]
pub enum EvalError {
    /// The tree holds a node of a kind that has no value.
    UnsupportedOperation(NodeKind),
    /// An exact result, or a step on the way to it, is not of machine size.
    Overflow,
}

/// A value or a failure.
pub type Outcome = Result<ConstView, EvalError>;

impl ConstView {
    /// An integer, a float or a fraction.
    pub open spec fn is_finite(self) -> bool {
        self is Int || self is Float || self is Rat
    }

    /// An integer or a fraction.
    pub open spec fn is_exact(self) -> bool {
        self is Int || self is Rat
    }

    /// The value can be held in a `Const`.
    pub open spec fn fits(self) -> bool {
        match self {
            ConstView::Int(i) => int_fits(i),
            ConstView::Rat(r) => r.fits(),
            _ => true,
        }
    }

    /// An exact value as a fraction.
    pub open spec fn ratio(self) -> Ratio {
        match self {
            ConstView::Int(i) => Ratio { num: i, den: 1 },
            ConstView::Rat(r) => r,
            _ => Ratio { num: 0, den: 1 },
        }
    }

    /// A finite value as a float: an integer is rounded to the nearest
    /// double, a fraction is the rounded quotient of its rounded parts.
    pub open spec fn float(self, fl: FloatFn) -> u64 {
        match self {
            ConstView::Int(i) => fl(FloatTask::FromInt(i as i128)),
            ConstView::Float(bits) => bits,
            ConstView::Rat(r) => fl(
                FloatTask::Div(
                    fl(FloatTask::FromInt(r.num as i128)),
                    fl(FloatTask::FromInt(r.den as i128)),
                ),
            ),
            _ => 0,
        }
    }

    /// The value of opposite sign.
    pub open spec fn opposite(self) -> ConstView {
        match self {
            ConstView::Int(i) => ConstView::Int(-i),
            ConstView::Float(bits) => ConstView::Float(float_negated(bits)),
            ConstView::Rat(r) => ConstView::Rat(r.negated()),
            ConstView::Inf => ConstView::NegInf,
            ConstView::NegInf => ConstView::Inf,
            ConstView::Undef => ConstView::Undef,
        }
    }

    /// Minus one, zero or one as the value is below, at or above zero. A
    /// float that is not a number, and the undefined value, have sign zero.
    pub open spec fn signum(self) -> int {
        match self {
            ConstView::Int(i) => crate::wide::sign(i),
            ConstView::Float(bits) => if float_below_zero(bits) {
                -1
            } else if float_above_zero(bits) {
                1
            } else {
                0
            },
            ConstView::Rat(r) => crate::wide::sign(r.num),
            ConstView::Inf => 1,
            ConstView::NegInf => -1,
            ConstView::Undef => 0,
        }
    }
}

/// The integer `i`, if it is of machine size.
pub open spec fn checked_int(i: int) -> Outcome {
    if int_fits(i) {
        Ok(ConstView::Int(i))
    } else {
        Err(EvalError::Overflow)
    }
}

/// A fraction as a value: an integer if its denominator is one.
pub open spec fn collapse(r: Ratio) -> ConstView {
    if r.den == 1 {
        ConstView::Int(r.num)
    } else {
        ConstView::Rat(r)
    }
}

/// The lowest terms of `raw` as a value, if `raw` and they are of machine size.
pub open spec fn checked_ratio(raw: Ratio) -> Outcome {
    if raw.representable() {
        Ok(collapse(raw.lowest()))
    } else {
        Err(EvalError::Overflow)
    }
}

/// The fraction one over one.
pub open spec fn unit_ratio() -> Ratio {
    Ratio { num: 1, den: 1 }
}

/// The value of opposite sign, if it is of machine size.
pub open spec fn spec_negate(c: ConstView) -> Outcome {
    if c.opposite().fits() {
        Ok(c.opposite())
    } else {
        Err(EvalError::Overflow)
    }
}

/// The sum of two values.
pub open spec fn spec_add(a: ConstView, b: ConstView, fl: FloatFn) -> Outcome {
    if a is Undef || b is Undef {
        Ok(ConstView::Undef)
    } else if a.is_finite() && b.is_finite() {
        if a is Float || b is Float {
            Ok(ConstView::Float(fl(FloatTask::Add(a.float(fl), b.float(fl)))))
        } else if a is Int && b is Int {
            checked_int(a->Int_0 + b->Int_0)
        } else if a.ratio().sum_fits(b.ratio()) {
            Ok(collapse(a.ratio().plus(b.ratio())))
        } else {
            Err(EvalError::Overflow)
        }
    } else if (a is Inf && b is NegInf) || (a is NegInf && b is Inf) {
        Ok(ConstView::Undef)
    } else if a is Inf || b is Inf {
        Ok(ConstView::Inf)
    } else {
        Ok(ConstView::NegInf)
    }
}

/// The difference of two values: the sum of the first and the opposite of
/// the second.
pub open spec fn spec_sub(a: ConstView, b: ConstView, fl: FloatFn) -> Outcome {
    if a is Undef || b is Undef {
        Ok(ConstView::Undef)
    } else {
        match spec_negate(b) {
            Ok(opposite) => spec_add(a, opposite, fl),
            Err(e) => Err(e),
        }
    }
}

/// The product of positive infinity and `x`: an infinity of the sign of
/// `x`, and undefined where `x` has no sign.
pub open spec fn spec_mul_infinity(x: ConstView) -> ConstView {
    if x.signum() < 0 {
        ConstView::NegInf
    } else if x.signum() > 0 {
        ConstView::Inf
    } else {
        ConstView::Undef
    }
}

/// The product of two values.
pub open spec fn spec_mul(a: ConstView, b: ConstView, fl: FloatFn) -> Outcome {
    if a is Undef || b is Undef {
        Ok(ConstView::Undef)
    } else if a.is_finite() && b.is_finite() {
        if a is Float || b is Float {
            Ok(ConstView::Float(fl(FloatTask::Mul(a.float(fl), b.float(fl)))))
        } else if a is Int && b is Int {
            checked_int(a->Int_0 * b->Int_0)
        } else if a.ratio().product_fits(b.ratio()) {
            Ok(collapse(a.ratio().times(b.ratio())))
        } else {
            Err(EvalError::Overflow)
        }
    } else if a is Inf {
        Ok(spec_mul_infinity(b))
    } else if b is Inf {
        Ok(spec_mul_infinity(a))
    } else if a is NegInf {
        Ok(spec_mul_infinity(b.opposite()))
    } else {
        Ok(spec_mul_infinity(a.opposite()))
    }
}

/// One over a value. One over zero is positive infinity, and negative
/// infinity for the float zero with the sign bit set; one over either
/// infinity is the integer zero.
pub open spec fn spec_reciprocal(c: ConstView, fl: FloatFn) -> Outcome {
    match c {
        ConstView::Int(i) => if i == 0 {
            Ok(ConstView::Inf)
        } else {
            checked_ratio(Ratio { num: 1, den: i })
        },
        ConstView::Float(bits) => if float_is_zero(bits) {
            if float_is_negative(bits) {
                Ok(ConstView::NegInf)
            } else {
                Ok(ConstView::Inf)
            }
        } else {
            Ok(ConstView::Float(fl(FloatTask::Div(ONE, bits))))
        },
        ConstView::Rat(r) => if r.num == 0 {
            Ok(ConstView::Inf)
        } else if unit_ratio().quotient_fits(r) {
            Ok(collapse(unit_ratio().over(r)))
        } else {
            Err(EvalError::Overflow)
        },
        ConstView::Inf => Ok(ConstView::Int(0)),
        ConstView::NegInf => Ok(ConstView::Int(0)),
        ConstView::Undef => Ok(ConstView::Undef),
    }
}

/// The quotient of two values: the product of the first and one over the
/// second.
pub open spec fn spec_div(a: ConstView, b: ConstView, fl: FloatFn) -> Outcome {
    if a is Undef || b is Undef {
        Ok(ConstView::Undef)
    } else {
        match spec_reciprocal(b, fl) {
            Ok(inverse) => spec_mul(a, inverse, fl),
            Err(e) => Err(e),
        }
    }
}

/// The operation that a node folds its children with.
#[derive(Clone, Copy, PartialEq, Eq, Structural, Debug)]
pub enum Fold {
    Sum,
    Prod,
}

impl Fold {
    /// The value of a node without children.
    pub open spec fn identity(self) -> ConstView {
        match self {
            Fold::Sum => ConstView::Int(0),
            Fold::Prod => ConstView::Int(1),
        }
    }

    /// The operation on two values.
    pub open spec fn combine(self, a: ConstView, b: ConstView, fl: FloatFn) -> Outcome {
        match self {
            Fold::Sum => spec_add(a, b, fl),
            Fold::Prod => spec_mul(a, b, fl),
        }
    }
}

/// The children of a `Sum` or `Prod` node, folded from left to right. A
/// child is evaluated when the fold reaches it, so the first failure from
/// the left is the outcome.
pub open spec fn spec_fold(children: Seq<ExprView>, op: Fold, fl: FloatFn) -> Outcome
    decreases children, 0nat,
{
    if children.len() == 0 {
        Ok(op.identity())
    } else if children.len() == 1 {
        spec_eval(children[0], fl)
    } else {
        match spec_fold(children.drop_last(), op, fl) {
            Err(e) => Err(e),
            Ok(left) => match spec_eval(children.last(), fl) {
                Err(e) => Err(e),
                Ok(right) => op.combine(left, right, fl),
            },
        }
    }
}

/// The value of an expression. `Pow`, `Call` and `Var` nodes have none.
pub open spec fn spec_eval(expr: ExprView, fl: FloatFn) -> Outcome
    decreases expr, 1nat,
{
    match expr {
        ExprView::Sum(children) => spec_fold(children, Fold::Sum, fl),
        ExprView::Prod(children) => spec_fold(children, Fold::Prod, fl),
        ExprView::Neg(inner) => match spec_eval(*inner, fl) {
            Ok(c) => spec_negate(c),
            Err(e) => Err(e),
        },
        ExprView::Recipr(inner) => match spec_eval(*inner, fl) {
            Ok(c) => spec_reciprocal(c, fl),
            Err(e) => Err(e),
        },
        ExprView::Const(c) => Ok(c),
        ExprView::Pow(_, _) => Err(EvalError::UnsupportedOperation(NodeKind::Pow)),
        ExprView::Call(_, _) => Err(EvalError::UnsupportedOperation(NodeKind::Call)),
        ExprView::Var(_) => Err(EvalError::UnsupportedOperation(NodeKind::Var)),
    }
}

/// No float is among the constants that an evaluation of `expr` reads.
pub open spec fn float_free(expr: ExprView) -> bool
    decreases expr,
{
    match expr {
        ExprView::Sum(children) => forall|i: int|
            0 <= i < children.len() ==> float_free(#[trigger] children[i]),
        ExprView::Prod(children) => forall|i: int|
            0 <= i < children.len() ==> float_free(#[trigger] children[i]),
        ExprView::Neg(inner) => float_free(*inner),
        ExprView::Recipr(inner) => float_free(*inner),
        ExprView::Const(c) => !(c is Float),
        _ => true,
    }
}

/// A failure within the first `k` children is the failure of the whole fold.
pub proof fn lemma_fold_failure(children: Seq<ExprView>, k: int, op: Fold, fl: FloatFn)
    requires
        1 <= k <= children.len(),
        spec_fold(children.take(k), op, fl) is Err,
    ensures
        spec_fold(children, op, fl) == spec_fold(children.take(k), op, fl),
    decreases children.len() - k,
{
    if k < children.len() {
        assert(children.take(k + 1).drop_last() =~= children.take(k));
        lemma_fold_failure(children, k + 1, op, fl);
    } else {
        assert(children.take(k) =~= children);
    }
}

/// The tree is built of `Sum`, `Prod`, `Neg`, `Recipr` and `Const` nodes alone.
pub open spec fn supported(expr: ExprView) -> bool
    decreases expr,
{
    match expr {
        ExprView::Sum(children) => forall|i: int|
            0 <= i < children.len() ==> supported(#[trigger] children[i]),
        ExprView::Prod(children) => forall|i: int|
            0 <= i < children.len() ==> supported(#[trigger] children[i]),
        ExprView::Neg(inner) => supported(*inner),
        ExprView::Recipr(inner) => supported(*inner),
        ExprView::Const(_) => true,
        _ => false,
    }
}

/// Every constant of the tree is normal: no fraction with denominator one
/// stands where an integer should.
pub open spec fn leaves_normal(expr: ExprView) -> bool
    decreases expr,
{
    match expr {
        ExprView::Sum(children) => forall|i: int|
            0 <= i < children.len() ==> leaves_normal(#[trigger] children[i]),
        ExprView::Prod(children) => forall|i: int|
            0 <= i < children.len() ==> leaves_normal(#[trigger] children[i]),
        ExprView::Neg(inner) => leaves_normal(*inner),
        ExprView::Recipr(inner) => leaves_normal(*inner),
        ExprView::Const(c) => c.is_normal(),
        _ => true,
    }
}

/// The undefined value absorbs: an operation with an undefined operand, on
/// either side, is undefined, whatever the other operand is.
pub proof fn lemma_undef_absorbs(c: ConstView, fl: FloatFn)
    ensures
        spec_add(ConstView::Undef, c, fl) == Outcome::Ok(ConstView::Undef),
        spec_add(c, ConstView::Undef, fl) == Outcome::Ok(ConstView::Undef),
        spec_sub(ConstView::Undef, c, fl) == Outcome::Ok(ConstView::Undef),
        spec_sub(c, ConstView::Undef, fl) == Outcome::Ok(ConstView::Undef),
        spec_mul(ConstView::Undef, c, fl) == Outcome::Ok(ConstView::Undef),
        spec_mul(c, ConstView::Undef, fl) == Outcome::Ok(ConstView::Undef),
        spec_div(ConstView::Undef, c, fl) == Outcome::Ok(ConstView::Undef),
        spec_div(c, ConstView::Undef, fl) == Outcome::Ok(ConstView::Undef),
        spec_negate(ConstView::Undef) == Outcome::Ok(ConstView::Undef),
        spec_reciprocal(ConstView::Undef, fl) == Outcome::Ok(ConstView::Undef),
        spec_mul_infinity(ConstView::Undef) == ConstView::Undef,
{
}

/// The sum and the product of the undefined value and any constant, in
/// either order, evaluate to the undefined value.
pub proof fn lemma_eval_undef_absorbs(c: ConstView, fl: FloatFn)
    ensures
        spec_eval(
            ExprView::Sum(seq![ExprView::Const(ConstView::Undef), ExprView::Const(c)]),
            fl,
        ) == Outcome::Ok(ConstView::Undef),
        spec_eval(
            ExprView::Sum(seq![ExprView::Const(c), ExprView::Const(ConstView::Undef)]),
            fl,
        ) == Outcome::Ok(ConstView::Undef),
        spec_eval(
            ExprView::Prod(seq![ExprView::Const(ConstView::Undef), ExprView::Const(c)]),
            fl,
        ) == Outcome::Ok(ConstView::Undef),
        spec_eval(
            ExprView::Prod(seq![ExprView::Const(c), ExprView::Const(ConstView::Undef)]),
            fl,
        ) == Outcome::Ok(ConstView::Undef),
{
    let undef = ExprView::Const(ConstView::Undef);
    let other = ExprView::Const(c);
    lemma_fold_pair(undef, other, Fold::Sum, fl);
    lemma_fold_pair(other, undef, Fold::Sum, fl);
    lemma_fold_pair(undef, other, Fold::Prod, fl);
    lemma_fold_pair(other, undef, Fold::Prod, fl);
}

/// A node with two children has the value of the operation on their values.
pub proof fn lemma_fold_pair(left: ExprView, right: ExprView, op: Fold, fl: FloatFn)
    ensures
        spec_fold(seq![left, right], op, fl) == match spec_eval(left, fl) {
            Err(e) => Outcome::Err(e),
            Ok(a) => match spec_eval(right, fl) {
                Err(e) => Outcome::Err(e),
                Ok(b) => op.combine(a, b, fl),
            },
        },
{
    let pair = seq![left, right];
    assert(pair.drop_last() =~= seq![left]);
    assert(pair.last() == right);
    assert(spec_fold(seq![left], op, fl) == spec_eval(left, fl));
}

/// The promotion table is symmetric: the sum and the product of exact
/// values, infinities and the undefined value do not depend on the order
/// of the operands.
pub proof fn lemma_exact_symmetric(a: ConstView, b: ConstView, fl: FloatFn)
    requires
        !(a is Float),
        !(b is Float),
    ensures
        spec_add(a, b, fl) == spec_add(b, a, fl),
        spec_mul(a, b, fl) == spec_mul(b, a, fl),
{
    let p = a.ratio();
    let q = b.ratio();
    assert(p.den * q.den == q.den * p.den) by (nonlinear_arith);
    assert(p.num * q.num == q.num * p.num) by (nonlinear_arith);
    assert(p.raw_sum(q) == q.raw_sum(p));
    assert(p.raw_product(q) == q.raw_product(p));
    if a is Int && b is Int {
        assert(a->Int_0 * b->Int_0 == b->Int_0 * a->Int_0) by (nonlinear_arith);
    }
}

/// No operation yields a float from operands that are not floats, and what
/// it yields from them does not depend on the arithmetic unit.
pub proof fn lemma_exact_operations(a: ConstView, b: ConstView, fl: FloatFn, other: FloatFn)
    requires
        !(a is Float),
        !(b is Float),
    ensures
        spec_add(a, b, fl) == spec_add(a, b, other),
        spec_mul(a, b, fl) == spec_mul(a, b, other),
        spec_reciprocal(a, fl) == spec_reciprocal(a, other),
        !(spec_add(a, b, fl) matches Ok(ConstView::Float(_))),
        !(spec_mul(a, b, fl) matches Ok(ConstView::Float(_))),
        !(spec_reciprocal(a, fl) matches Ok(ConstView::Float(_))),
        !(spec_negate(a) matches Ok(ConstView::Float(_))),
{
}

/// Purity: an evaluation that reads no float yields no float, and its
/// outcome is the same whatever the arithmetic unit is.
pub proof fn lemma_exact_eval(expr: ExprView, fl: FloatFn, other: FloatFn)
    requires
        float_free(expr),
    ensures
        spec_eval(expr, fl) == spec_eval(expr, other),
        !(spec_eval(expr, fl) matches Ok(ConstView::Float(_))),
    decreases expr, 1nat,
{
    match expr {
        ExprView::Sum(children) => {
            lemma_exact_fold(children, Fold::Sum, fl, other);
        },
        ExprView::Prod(children) => {
            lemma_exact_fold(children, Fold::Prod, fl, other);
        },
        ExprView::Neg(inner) => {
            lemma_exact_eval(*inner, fl, other);
        },
        ExprView::Recipr(inner) => {
            lemma_exact_eval(*inner, fl, other);
            if let Ok(c) = spec_eval(*inner, fl) {
                lemma_exact_operations(c, c, fl, other);
            }
        },
        _ => {},
    }
}

/// Purity of a fold: see `lemma_exact_eval`.
pub proof fn lemma_exact_fold(children: Seq<ExprView>, op: Fold, fl: FloatFn, other: FloatFn)
    requires
        forall|i: int| 0 <= i < children.len() ==> float_free(#[trigger] children[i]),
    ensures
        spec_fold(children, op, fl) == spec_fold(children, op, other),
        !(spec_fold(children, op, fl) matches Ok(ConstView::Float(_))),
    decreases children, 0nat,
{
    if children.len() == 1 {
        lemma_exact_eval(children[0], fl, other);
    } else if children.len() > 1 {
        let front = children.drop_last();
        assert forall|i: int| 0 <= i < front.len() implies float_free(#[trigger] front[i]) by {
            assert(front[i] == children[i]);
        }
        lemma_exact_fold(front, op, fl, other);
        lemma_exact_eval(children.last(), fl, other);
        if let Ok(a) = spec_fold(front, op, fl) {
            if let Ok(b) = spec_eval(children.last(), fl) {
                lemma_exact_operations(a, b, fl, other);
            }
        }
    }
}

/// Totality: a tree of `Sum`, `Prod`, `Neg`, `Recipr` and `Const` nodes
/// has a value, unless an exact result is not of machine size.
pub proof fn lemma_supported_eval(expr: ExprView, fl: FloatFn)
    requires
        supported(expr),
    ensures
        spec_eval(expr, fl) is Ok || spec_eval(expr, fl) == Outcome::Err(EvalError::Overflow),
    decreases expr, 1nat,
{
    match expr {
        ExprView::Sum(children) => {
            lemma_supported_fold(children, Fold::Sum, fl);
        },
        ExprView::Prod(children) => {
            lemma_supported_fold(children, Fold::Prod, fl);
        },
        ExprView::Neg(inner) => {
            lemma_supported_eval(*inner, fl);
        },
        ExprView::Recipr(inner) => {
            lemma_supported_eval(*inner, fl);
        },
        _ => {},
    }
}

/// Totality of a fold: see `lemma_supported_eval`.
pub proof fn lemma_supported_fold(children: Seq<ExprView>, op: Fold, fl: FloatFn)
    requires
        forall|i: int| 0 <= i < children.len() ==> supported(#[trigger] children[i]),
    ensures
        spec_fold(children, op, fl) is Ok || spec_fold(children, op, fl) == Outcome::Err(
            EvalError::Overflow,
        ),
    decreases children, 0nat,
{
    if children.len() == 1 {
        lemma_supported_eval(children[0], fl);
    } else if children.len() > 1 {
        let front = children.drop_last();
        assert forall|i: int| 0 <= i < front.len() implies supported(#[trigger] front[i]) by {
            assert(front[i] == children[i]);
        }
        lemma_supported_fold(front, op, fl);
        lemma_supported_eval(children.last(), fl);
    }
}

/// An operation on normal values yields a normal value.
pub proof fn lemma_normal_operations(a: ConstView, b: ConstView, fl: FloatFn)
    requires
        a.is_normal(),
        b.is_normal(),
    ensures
        spec_add(a, b, fl) matches Ok(c) ==> c.is_normal(),
        spec_mul(a, b, fl) matches Ok(c) ==> c.is_normal(),
        spec_negate(a) matches Ok(c) ==> c.is_normal(),
        spec_reciprocal(a, fl) matches Ok(c) ==> c.is_normal(),
{
}

/// The invariant of the tower: the value of a tree whose constants are
/// normal is normal. A fraction that is an integer comes out as an integer.
pub proof fn lemma_eval_normal(expr: ExprView, fl: FloatFn)
    requires
        leaves_normal(expr),
    ensures
        spec_eval(expr, fl) matches Ok(c) ==> c.is_normal(),
    decreases expr, 1nat,
{
    match expr {
        ExprView::Sum(children) => {
            lemma_fold_normal(children, Fold::Sum, fl);
        },
        ExprView::Prod(children) => {
            lemma_fold_normal(children, Fold::Prod, fl);
        },
        ExprView::Neg(inner) => {
            lemma_eval_normal(*inner, fl);
            if let Ok(c) = spec_eval(*inner, fl) {
                lemma_normal_operations(c, c, fl);
            }
        },
        ExprView::Recipr(inner) => {
            lemma_eval_normal(*inner, fl);
            if let Ok(c) = spec_eval(*inner, fl) {
                lemma_normal_operations(c, c, fl);
            }
        },
        _ => {},
    }
}

/// The invariant of the tower for a fold: see `lemma_eval_normal`.
pub proof fn lemma_fold_normal(children: Seq<ExprView>, op: Fold, fl: FloatFn)
    requires
        forall|i: int| 0 <= i < children.len() ==> leaves_normal(#[trigger] children[i]),
    ensures
        spec_fold(children, op, fl) matches Ok(c) ==> c.is_normal(),
    decreases children, 0nat,
{
    if children.len() == 1 {
        lemma_eval_normal(children[0], fl);
    } else if children.len() > 1 {
        let front = children.drop_last();
        assert forall|i: int| 0 <= i < front.len() implies leaves_normal(#[trigger] front[i]) by {
            assert(front[i] == children[i]);
        }
        lemma_fold_normal(front, op, fl);
        lemma_eval_normal(children.last(), fl);
        if let Ok(a) = spec_fold(front, op, fl) {
            if let Ok(b) = spec_eval(children.last(), fl) {
                lemma_normal_operations(a, b, fl);
            }
        }
    }
}

} // verus!
