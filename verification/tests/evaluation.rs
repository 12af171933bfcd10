use betadog::arith::{EvalError, NodeKind};
use betadog::eval::{
    add_const, div_const, eval, eval_rat, eval_tree, mul_const, mul_infinity_const, negate_const,
    reciprocal_const, sub_const,
};
use betadog::expr::{Const, Expr, Func};
use betadog::float::FloatTask;
use betadog::lexer::Tok;
use betadog::parser::parse;
use betadog::rat::Rat;
use betadog::table::OperatorTable;

fn ieee(task: FloatTask) -> u64 {
    match task {
        FloatTask::FromInt(i) => (i as f64).to_bits(),
        FloatTask::Add(a, b) => (f64::from_bits(a) + f64::from_bits(b)).to_bits(),
        FloatTask::Mul(a, b) => (f64::from_bits(a) * f64::from_bits(b)).to_bits(),
        FloatTask::Div(a, b) => (f64::from_bits(a) / f64::from_bits(b)).to_bits(),
    }
}

fn never(_task: FloatTask) -> u64 {
    panic!("an exact evaluation asked for a float operation")
}

fn dbl(x: f64) -> Const {
    Const::Float(x.to_bits())
}

fn rat(n: i128, d: i128) -> Const {
    Const::Rat(Rat::new(n, d))
}

fn konst(c: Const) -> Box<Expr> {
    Box::new(Expr::Const(c))
}

fn whole(i: i128) -> Box<Expr> {
    konst(Const::Int(i))
}

fn tokens_of_difference() -> Vec<Tok> {
    vec![
        Tok::Lit(Const::Int(8)),
        Tok::Op(String::from("-")),
        Tok::Lit(Const::Int(3)),
        Tok::Op(String::from("-")),
        Tok::Lit(Const::Int(2)),
    ]
}

#[test]
fn infinity_absorption() {
    let add = Expr::Sum(vec![konst(Const::Inf), konst(Const::NegInf)]);
    assert_eq!(eval(add, never), Ok(Const::Undef));
    let mul = Expr::Prod(vec![konst(Const::Inf), whole(-5)]);
    assert_eq!(eval(mul, never), Ok(Const::NegInf));
    let div = Expr::Prod(vec![whole(1), Box::new(Expr::Recipr(whole(0)))]);
    assert_eq!(eval(div, never), Ok(Const::Inf));
    assert_eq!(div_const(Const::Int(1), Const::Int(0), &never), Ok(Const::Inf));
}

#[test]
fn undef_absorption() {
    let others = [
        Const::Int(0),
        Const::Int(-7),
        Const::Int(i128::MIN),
        dbl(2.5),
        dbl(f64::NAN),
        rat(1, 3),
        Const::Inf,
        Const::NegInf,
        Const::Undef,
    ];
    for c in others {
        assert_eq!(eval(Expr::Sum(vec![konst(Const::Undef), konst(c)]), ieee), Ok(Const::Undef));
        assert_eq!(eval(Expr::Sum(vec![konst(c), konst(Const::Undef)]), ieee), Ok(Const::Undef));
        assert_eq!(eval(Expr::Prod(vec![konst(Const::Undef), konst(c)]), ieee), Ok(Const::Undef));
        assert_eq!(eval(Expr::Prod(vec![konst(c), konst(Const::Undef)]), ieee), Ok(Const::Undef));
        assert_eq!(sub_const(Const::Undef, c, &ieee), Ok(Const::Undef));
        assert_eq!(sub_const(c, Const::Undef, &ieee), Ok(Const::Undef));
        assert_eq!(div_const(Const::Undef, c, &ieee), Ok(Const::Undef));
        assert_eq!(div_const(c, Const::Undef, &ieee), Ok(Const::Undef));
    }
    assert_eq!(negate_const(Const::Undef), Ok(Const::Undef));
    assert_eq!(reciprocal_const(Const::Undef, &never), Ok(Const::Undef));
    assert_eq!(mul_infinity_const(Const::Undef), Const::Undef);
}

#[test]
fn a_parsed_difference_evaluates_from_the_left() {
    let mut ops = OperatorTable::new();
    ops.insert(String::from("-"), 20);
    let tree = parse(tokens_of_difference(), ops).unwrap();
    assert_eq!(eval(tree, never), Ok(Const::Int(3)));
}

#[test]
fn evaluation_is_repeatable() {
    let tree = Expr::Sum(vec![
        Box::new(Expr::Prod(vec![whole(2), Box::new(Expr::Recipr(whole(3)))])),
        Box::new(Expr::Neg(konst(rat(1, 6)))),
        whole(4),
    ]);
    let first = eval_tree(&tree, &never);
    let second = eval_tree(&tree, &never);
    assert_eq!(first, Ok(rat(9, 2)));
    assert_eq!(first, second);
    assert_eq!(eval_tree(&tree, &ieee), first);
}

#[test]
fn folds() {
    assert_eq!(eval(Expr::Sum(vec![]), never), Ok(Const::Int(0)));
    assert_eq!(eval(Expr::Prod(vec![]), never), Ok(Const::Int(1)));
    assert_eq!(eval(Expr::Sum(vec![whole(7)]), never), Ok(Const::Int(7)));
    assert_eq!(eval(Expr::Prod(vec![konst(dbl(-0.0))]), never), Ok(dbl(-0.0)));
    assert_eq!(eval(Expr::Sum(vec![whole(1), whole(2), whole(3), whole(4)]), never), Ok(Const::Int(10)));
    assert_eq!(eval(Expr::Prod(vec![whole(1), whole(2), whole(3), whole(4)]), never), Ok(Const::Int(24)));
    assert_eq!(eval(*whole(42), never), Ok(Const::Int(42)));
    assert_eq!(eval(Expr::Neg(whole(42)), never), Ok(Const::Int(-42)));
    assert_eq!(eval(Expr::Recipr(whole(4)), never), Ok(rat(1, 4)));
}

#[test]
fn unsupported_nodes() {
    let pow = Expr::Pow(whole(2), whole(3));
    assert_eq!(eval(pow, never), Err(EvalError::UnsupportedOperation(NodeKind::Pow)));
    let call = Expr::Call(Func::Sin, vec![whole(0)]);
    assert_eq!(eval(call, never), Err(EvalError::UnsupportedOperation(NodeKind::Call)));
    let var = Expr::Var(String::from("x"));
    assert_eq!(eval(var, never), Err(EvalError::UnsupportedOperation(NodeKind::Var)));
    let nested = Expr::Sum(vec![whole(1), Box::new(Expr::Neg(Box::new(Expr::Var(String::from("x")))))]);
    assert_eq!(eval(nested, never), Err(EvalError::UnsupportedOperation(NodeKind::Var)));
}

#[test]
fn the_first_failure_from_the_left_is_the_outcome() {
    let tree = Expr::Sum(vec![
        whole(i128::MAX),
        whole(1),
        Box::new(Expr::Var(String::from("x"))),
    ]);
    assert_eq!(eval(tree, never), Err(EvalError::Overflow));
    let tree = Expr::Sum(vec![
        whole(i128::MAX),
        Box::new(Expr::Var(String::from("x"))),
        whole(1),
    ]);
    assert_eq!(eval(tree, never), Err(EvalError::UnsupportedOperation(NodeKind::Var)));
    let tree = Expr::Prod(vec![
        Box::new(Expr::Pow(whole(1), whole(1))),
        Box::new(Expr::Var(String::from("x"))),
    ]);
    assert_eq!(eval(tree, never), Err(EvalError::UnsupportedOperation(NodeKind::Pow)));
}

#[test]
fn integers_are_exact() {
    assert_eq!(add_const(Const::Int(2), Const::Int(3), &never), Ok(Const::Int(5)));
    assert_eq!(sub_const(Const::Int(2), Const::Int(3), &never), Ok(Const::Int(-1)));
    assert_eq!(mul_const(Const::Int(-4), Const::Int(3), &never), Ok(Const::Int(-12)));
    assert_eq!(div_const(Const::Int(6), Const::Int(3), &never), Ok(Const::Int(2)));
    assert_eq!(div_const(Const::Int(6), Const::Int(4), &never), Ok(rat(3, 2)));
    assert_eq!(add_const(Const::Int(i128::MAX), Const::Int(1), &never), Err(EvalError::Overflow));
    assert_eq!(add_const(Const::Int(i128::MIN), Const::Int(-1), &never), Err(EvalError::Overflow));
    assert_eq!(mul_const(Const::Int(i128::MAX), Const::Int(2), &never), Err(EvalError::Overflow));
    assert_eq!(mul_const(Const::Int(i128::MIN), Const::Int(-1), &never), Err(EvalError::Overflow));
    assert_eq!(
        add_const(Const::Int(i128::MAX), Const::Int(i128::MIN), &never),
        Ok(Const::Int(-1))
    );
    assert_eq!(negate_const(Const::Int(i128::MIN)), Err(EvalError::Overflow));
    assert_eq!(negate_const(Const::Int(i128::MAX)), Ok(Const::Int(i128::MIN + 1)));
    assert_eq!(sub_const(Const::Int(0), Const::Int(i128::MIN), &never), Err(EvalError::Overflow));
}

#[test]
fn fractions_are_exact_and_collapse_to_integers() {
    assert_eq!(add_const(rat(3, 5), rat(2, 5), &never), Ok(Const::Int(1)));
    assert_eq!(add_const(rat(4, 9), rat(9, 4), &never), Ok(rat(97, 36)));
    assert_eq!(add_const(rat(1, 2), Const::Int(1), &never), Ok(rat(3, 2)));
    assert_eq!(add_const(Const::Int(1), rat(1, 2), &never), Ok(rat(3, 2)));
    assert_eq!(mul_const(rat(2, 3), rat(3, 2), &never), Ok(Const::Int(1)));
    assert_eq!(mul_const(rat(2, 3), Const::Int(3), &never), Ok(Const::Int(2)));
    assert_eq!(mul_const(Const::Int(4), rat(3, 8), &never), Ok(rat(3, 2)));
    assert_eq!(sub_const(rat(1, 2), rat(1, 2), &never), Ok(Const::Int(0)));
    assert_eq!(div_const(rat(1, 2), rat(1, 4), &never), Ok(Const::Int(2)));
    assert_eq!(negate_const(rat(1, 2)), Ok(rat(-1, 2)));
    assert_eq!(eval_rat(Rat::new(4, 2)), Const::Int(2));
    assert_eq!(eval_rat(Rat::new(-4, 2)), Const::Int(-2));
    assert_eq!(eval_rat(Rat::new(4, 3)), rat(4, 3));
    assert_eq!(
        mul_const(rat(i128::MAX, 2), rat(i128::MAX, 3), &never),
        Err(EvalError::Overflow)
    );
    assert_eq!(
        add_const(rat(1, i128::MAX), rat(1, i128::MAX - 1), &never),
        Err(EvalError::Overflow)
    );
}

#[test]
fn reciprocals() {
    assert_eq!(reciprocal_const(Const::Int(0), &never), Ok(Const::Inf));
    assert_eq!(reciprocal_const(Const::Int(4), &never), Ok(rat(1, 4)));
    assert_eq!(reciprocal_const(Const::Int(-4), &never), Ok(rat(-1, 4)));
    assert_eq!(reciprocal_const(Const::Int(1), &never), Ok(Const::Int(1)));
    assert_eq!(reciprocal_const(Const::Int(-1), &never), Ok(Const::Int(-1)));
    assert_eq!(reciprocal_const(Const::Int(i128::MIN), &never), Err(EvalError::Overflow));
    assert_eq!(reciprocal_const(rat(2, 3), &never), Ok(rat(3, 2)));
    assert_eq!(reciprocal_const(rat(-2, 3), &never), Ok(rat(-3, 2)));
    assert_eq!(reciprocal_const(rat(1, 3), &never), Ok(Const::Int(3)));
    assert_eq!(reciprocal_const(rat(-1, 3), &never), Ok(Const::Int(-3)));
    assert_eq!(reciprocal_const(Const::Rat(Rat::from_int(0)), &never), Ok(Const::Inf));
    assert_eq!(reciprocal_const(rat(i128::MIN, 3), &never), Err(EvalError::Overflow));
    assert_eq!(reciprocal_const(Const::Inf, &never), Ok(Const::Int(0)));
    assert_eq!(reciprocal_const(Const::NegInf, &never), Ok(Const::Int(0)));
    assert_eq!(reciprocal_const(dbl(0.0), &never), Ok(Const::Inf));
    assert_eq!(reciprocal_const(dbl(-0.0), &never), Ok(Const::NegInf));
    assert_eq!(reciprocal_const(dbl(4.0), &ieee), Ok(dbl(0.25)));
    assert_eq!(reciprocal_const(dbl(-0.5), &ieee), Ok(dbl(-2.0)));
    assert_eq!(reciprocal_const(dbl(f64::INFINITY), &ieee), Ok(dbl(0.0)));
}

#[test]
fn negation() {
    assert_eq!(negate_const(Const::Int(5)), Ok(Const::Int(-5)));
    assert_eq!(negate_const(dbl(1.5)), Ok(dbl(-1.5)));
    assert_eq!(negate_const(dbl(0.0)), Ok(Const::Float((-0.0f64).to_bits())));
    assert_eq!(negate_const(Const::Inf), Ok(Const::NegInf));
    assert_eq!(negate_const(Const::NegInf), Ok(Const::Inf));
}

#[test]
fn floats_take_over() {
    assert_eq!(add_const(Const::Int(1), dbl(0.5), &ieee), Ok(dbl(1.5)));
    assert_eq!(add_const(dbl(0.5), Const::Int(1), &ieee), Ok(dbl(1.5)));
    assert_eq!(add_const(dbl(0.5), dbl(0.25), &ieee), Ok(dbl(0.75)));
    assert_eq!(add_const(rat(1, 4), dbl(0.5), &ieee), Ok(dbl(0.75)));
    assert_eq!(add_const(dbl(0.5), rat(1, 4), &ieee), Ok(dbl(0.75)));
    assert_eq!(mul_const(Const::Int(3), dbl(0.5), &ieee), Ok(dbl(1.5)));
    assert_eq!(mul_const(dbl(0.5), Const::Int(3), &ieee), Ok(dbl(1.5)));
    assert_eq!(mul_const(dbl(0.5), dbl(0.5), &ieee), Ok(dbl(0.25)));
    assert_eq!(mul_const(rat(1, 4), dbl(2.0), &ieee), Ok(dbl(0.5)));
    assert_eq!(mul_const(dbl(2.0), rat(1, 4), &ieee), Ok(dbl(0.5)));
    assert_eq!(sub_const(dbl(2.0), Const::Int(1), &ieee), Ok(dbl(1.0)));
    assert_eq!(div_const(Const::Int(1), dbl(4.0), &ieee), Ok(dbl(0.25)));
    assert_eq!(div_const(dbl(1.0), dbl(0.0), &ieee), Ok(Const::Inf));
    assert_eq!(div_const(dbl(-1.0), dbl(0.0), &ieee), Ok(Const::NegInf));
    assert_eq!(div_const(dbl(1.0), dbl(-0.0), &ieee), Ok(Const::NegInf));
    // a fraction becomes the quotient of its rounded parts
    assert_eq!(
        add_const(rat(1, 3), dbl(0.0), &ieee),
        Ok(dbl(1.0 / 3.0 + 0.0))
    );
    // a large integer is rounded before it is added
    let big: i128 = (1 << 60) + 1;
    assert_eq!(add_const(Const::Int(big), dbl(1.0), &ieee), Ok(dbl(big as f64 + 1.0)));
    let tree = Expr::Sum(vec![whole(1), konst(dbl(0.5)), konst(rat(1, 4))]);
    assert_eq!(eval(tree, ieee), Ok(dbl(1.75)));
}

#[test]
fn infinities_in_sums() {
    let finite = [Const::Int(5), Const::Int(-5), dbl(1.0), dbl(f64::NAN), rat(1, 2)];
    assert_eq!(add_const(Const::Inf, Const::Inf, &never), Ok(Const::Inf));
    assert_eq!(add_const(Const::NegInf, Const::NegInf, &never), Ok(Const::NegInf));
    assert_eq!(add_const(Const::Inf, Const::NegInf, &never), Ok(Const::Undef));
    assert_eq!(add_const(Const::NegInf, Const::Inf, &never), Ok(Const::Undef));
    assert_eq!(sub_const(Const::Inf, Const::Inf, &never), Ok(Const::Undef));
    assert_eq!(sub_const(Const::Inf, Const::NegInf, &never), Ok(Const::Inf));
    for c in finite {
        assert_eq!(add_const(Const::Inf, c, &never), Ok(Const::Inf));
        assert_eq!(add_const(c, Const::Inf, &never), Ok(Const::Inf));
        assert_eq!(add_const(Const::NegInf, c, &never), Ok(Const::NegInf));
        assert_eq!(add_const(c, Const::NegInf, &never), Ok(Const::NegInf));
        assert_eq!(sub_const(c, Const::Inf, &never), Ok(Const::NegInf));
    }
}

#[test]
fn infinities_in_products() {
    assert_eq!(mul_const(Const::Inf, Const::Inf, &never), Ok(Const::Inf));
    assert_eq!(mul_const(Const::Inf, Const::NegInf, &never), Ok(Const::NegInf));
    assert_eq!(mul_const(Const::NegInf, Const::Inf, &never), Ok(Const::NegInf));
    assert_eq!(mul_const(Const::NegInf, Const::NegInf, &never), Ok(Const::Inf));
    let positive = [Const::Int(5), Const::Int(i128::MAX), dbl(0.1), dbl(f64::INFINITY), rat(1, 2)];
    for c in positive {
        assert_eq!(mul_infinity_const(c), Const::Inf);
        assert_eq!(mul_const(Const::Inf, c, &never), Ok(Const::Inf));
        assert_eq!(mul_const(c, Const::Inf, &never), Ok(Const::Inf));
        assert_eq!(mul_const(Const::NegInf, c, &never), Ok(Const::NegInf));
        assert_eq!(mul_const(c, Const::NegInf, &never), Ok(Const::NegInf));
    }
    let negative = [
        Const::Int(-5),
        Const::Int(i128::MIN),
        dbl(-0.1),
        dbl(f64::NEG_INFINITY),
        rat(-1, 2),
    ];
    for c in negative {
        assert_eq!(mul_infinity_const(c), Const::NegInf);
        assert_eq!(mul_const(Const::Inf, c, &never), Ok(Const::NegInf));
        assert_eq!(mul_const(c, Const::Inf, &never), Ok(Const::NegInf));
        assert_eq!(mul_const(Const::NegInf, c, &never), Ok(Const::Inf));
        assert_eq!(mul_const(c, Const::NegInf, &never), Ok(Const::Inf));
    }
    let without_sign = [
        Const::Int(0),
        dbl(0.0),
        dbl(-0.0),
        dbl(f64::NAN),
        Const::Rat(Rat::from_int(0)),
    ];
    for c in without_sign {
        assert_eq!(mul_infinity_const(c), Const::Undef);
        assert_eq!(mul_const(Const::Inf, c, &never), Ok(Const::Undef));
        assert_eq!(mul_const(c, Const::NegInf, &never), Ok(Const::Undef));
    }
    assert_eq!(mul_infinity_const(Const::Inf), Const::Inf);
    assert_eq!(mul_infinity_const(Const::NegInf), Const::NegInf);
    assert_eq!(div_const(Const::Int(5), Const::Inf, &never), Ok(Const::Int(0)));
    assert_eq!(div_const(Const::Inf, Const::Inf, &never), Ok(Const::Undef));
    assert_eq!(div_const(Const::Inf, Const::Int(0), &never), Ok(Const::Inf));
    assert_eq!(div_const(Const::Int(0), Const::Int(0), &never), Ok(Const::Undef));
    assert_eq!(div_const(Const::Int(-1), Const::Int(0), &never), Ok(Const::NegInf));
}
