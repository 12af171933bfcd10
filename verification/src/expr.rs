//! Values of the numeric tower and the expression tree.

use crate::float::{equal, float_equal};
use crate::rat::{Rat, Ratio};
use vstd::prelude::*;
use vstd::std_specs::cmp::PartialEqSpecImpl;

verus! {

/// A value of the numeric tower.
#[derive(Debug, Copy, Clone)]
pub enum Const {
    /// An exact integer.
    Int(i128),
    /// A double, as the bit pattern of its IEEE-754 binary64 encoding.
    Float(u64),
    /// An exact fraction.
    Rat(Rat),
    /// Positive infinity: above every other value, apart from a float's own infinity.
    Inf,
    /// Negative infinity.
    NegInf,
    /// The undefined value, which every operation absorbs.
    Undef,
}

/// The mathematical value of a [`Const`].
pub enum ConstView {
    Int(int),
    Float(u64),
    Rat(Ratio),
    Inf,
    NegInf,
    Undef,
}

impl View for Const {
    type V = ConstView;

    open spec fn view(&self) -> ConstView {
        match *self {
            Const::Int(i) => ConstView::Int(i as int),
            Const::Float(bits) => ConstView::Float(bits),
            Const::Rat(r) => ConstView::Rat(r@),
            Const::Inf => ConstView::Inf,
            Const::NegInf => ConstView::NegInf,
            Const::Undef => ConstView::Undef,
        }
    }
}

impl ConstView {
    /// Equality as `==` on [`Const`] decides it: floats compare as doubles do,
    /// everything else by value.
    pub open spec fn equals(self, other: ConstView) -> bool {
        match (self, other) {
            (ConstView::Float(a), ConstView::Float(b)) => float_equal(a, b),
            (ConstView::Float(_), _) => false,
            (_, ConstView::Float(_)) => false,
            _ => self == other,
        }
    }

    /// No fraction with denominator one stands where an integer should.
    pub open spec fn is_normal(self) -> bool {
        self matches ConstView::Rat(r) ==> r.den != 1
    }
}

impl PartialEq for Const {
    fn eq(&self, other: &Const) -> (r: bool) {
        match (*self, *other) {
            (Const::Int(a), Const::Int(b)) => a == b,
            (Const::Float(a), Const::Float(b)) => equal(a, b),
            (Const::Rat(a), Const::Rat(b)) => {
                proof {
                    if a@ == b@ {
                        a.lemma_view_injective(b);
                    }
                }
                a == b
            },
            (Const::Inf, Const::Inf) => true,
            (Const::NegInf, Const::NegInf) => true,
            (Const::Undef, Const::Undef) => true,
            _ => false,
        }
    }
}

impl PartialEqSpecImpl for Const {
    open spec fn obeys_eq_spec() -> bool {
        true
    }

    open spec fn eq_spec(&self, other: &Const) -> bool {
        self@.equals(other@)
    }
}

/// The head of a call.
#[derive(Clone, Debug, PartialEq, Eq)]
pub enum Func {
    Sin,
    Cos,
    Tan,
    ASin,
    ACos,
    ATan,
    Log,
    Sqrt,
    Cbrt,
    Root,
    /// Any other name; the parser puts a generic operator's symbol here.
    Func(String),
}

/// The mathematical value of a [`Func`].
pub enum FuncView {
    Sin,
    Cos,
    Tan,
    ASin,
    ACos,
    ATan,
    Log,
    Sqrt,
    Cbrt,
    Root,
    Func(Seq<char>),
}

impl View for Func {
    type V = FuncView;

    open spec fn view(&self) -> FuncView {
        match self {
            Func::Sin => FuncView::Sin,
            Func::Cos => FuncView::Cos,
            Func::Tan => FuncView::Tan,
            Func::ASin => FuncView::ASin,
            Func::ACos => FuncView::ACos,
            Func::ATan => FuncView::ATan,
            Func::Log => FuncView::Log,
            Func::Sqrt => FuncView::Sqrt,
            Func::Cbrt => FuncView::Cbrt,
            Func::Root => FuncView::Root,
            Func::Func(name) => FuncView::Func(name@),
        }
    }
}

/// An expression tree. Every node owns its children.
#[derive(Debug, PartialEq)]
pub enum Expr {
    /// The sum of the children, added from left to right.
    Sum(Vec<Box<Expr>>),
    /// The product of the children, multiplied from left to right.
    Prod(Vec<Box<Expr>>),
    /// A base raised to an exponent.
    Pow(Box<Expr>, Box<Expr>),
    /// The negation of the child.
    Neg(Box<Expr>),
    /// One over the child.
    Recipr(Box<Expr>),
    /// A function applied to arguments.
    Call(Func, Vec<Box<Expr>>),
    /// A literal or keyword value.
    Const(Const),
    /// A free identifier.
    Var(String),
}

/// The mathematical value of an [`Expr`]: the same tree over sequences.
pub enum ExprView {
    Sum(Seq<ExprView>),
    Prod(Seq<ExprView>),
    Pow(Box<ExprView>, Box<ExprView>),
    Neg(Box<ExprView>),
    Recipr(Box<ExprView>),
    Call(FuncView, Seq<ExprView>),
    Const(ConstView),
    Var(Seq<char>),
}

impl Expr {
    /// The tree as a mathematical value.
    pub open spec fn model(&self) -> ExprView
        decreases self,
    {
        match self {
            Expr::Sum(v) => ExprView::Sum(Self::models(v)),
            Expr::Prod(v) => ExprView::Prod(Self::models(v)),
            Expr::Pow(base, exponent) => ExprView::Pow(
                Box::new((**base).model()),
                Box::new((**exponent).model()),
            ),
            Expr::Neg(e) => ExprView::Neg(Box::new((**e).model())),
            Expr::Recipr(e) => ExprView::Recipr(Box::new((**e).model())),
            Expr::Call(f, v) => ExprView::Call(f@, Self::models(v)),
            Expr::Const(c) => ExprView::Const(c@),
            Expr::Var(name) => ExprView::Var(name@),
        }
    }

    /// The children of a node as mathematical values, in order.
    pub open spec fn models(v: &Vec<Box<Expr>>) -> Seq<ExprView>
        decreases v,
    {
        Seq::new(
            v.len() as nat,
            |i: int|
                if 0 <= i < v.len() {
                    (*v[i]).model()
                } else {
                    ExprView::Sum(Seq::empty())
                },
        )
    }
}

impl View for Expr {
    type V = ExprView;

    open spec fn view(&self) -> ExprView {
        self.model()
    }
}

} // verus!
