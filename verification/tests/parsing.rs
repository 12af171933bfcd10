use betadog::expr::{Const, Expr, Func};
use betadog::lexer::Tok;
use betadog::parser::{parse, Error, ErrorKind};
use betadog::table::OperatorTable;

fn table() -> OperatorTable {
    let mut ops = OperatorTable::new();
    ops.insert(String::from("*"), 40);
    ops.insert(String::from("/"), 40);
    ops.insert(String::from("+"), 20);
    ops.insert(String::from("-"), 20);
    ops
}

fn wide_table() -> OperatorTable {
    let mut ops = table();
    ops.insert(String::from("^"), 60);
    ops.insert(String::from("%"), 40);
    ops.insert(String::from("=="), 10);
    ops
}

fn lit(i: i128) -> Tok {
    Tok::Lit(Const::Int(i))
}

fn op(s: &str) -> Tok {
    Tok::Op(String::from(s))
}

fn name(s: &str) -> Tok {
    Tok::Iden(String::from(s))
}

fn leaf(i: i128) -> Box<Expr> {
    Box::new(Expr::Const(Const::Int(i)))
}

fn var(s: &str) -> Box<Expr> {
    Box::new(Expr::Var(String::from(s)))
}

fn sum(children: Vec<Box<Expr>>) -> Box<Expr> {
    Box::new(Expr::Sum(children))
}

fn prod(children: Vec<Box<Expr>>) -> Box<Expr> {
    Box::new(Expr::Prod(children))
}

fn neg(child: Box<Expr>) -> Box<Expr> {
    Box::new(Expr::Neg(child))
}

fn recipr(child: Box<Expr>) -> Box<Expr> {
    Box::new(Expr::Recipr(child))
}

fn call(symbol: &str, left: Box<Expr>, right: Box<Expr>) -> Box<Expr> {
    Box::new(Expr::Call(Func::Func(String::from(symbol)), vec![left, right]))
}

fn fails(toks: Vec<Tok>, ops: OperatorTable, kind: ErrorKind, position: usize) {
    assert_eq!(parse(toks, ops), Err(Error { kind, position }));
}

#[test]
fn test_parser() {
    let ops = table();
    let parse = |toks| parse(toks, ops.clone());
    assert!(parse(Vec::new()).is_err());
    assert_eq!(parse(vec![lit(5)]), Ok(Expr::Const(Const::Int(5))));
}

#[test]
fn precedence_groups_product_under_sum() {
    let toks = vec![lit(2), op("+"), lit(3), op("*"), lit(4)];
    assert_eq!(parse(toks, table()), Ok(*sum(vec![leaf(2), prod(vec![leaf(3), leaf(4)])])));
    let toks = vec![lit(2), op("*"), lit(3), op("+"), lit(4)];
    assert_eq!(parse(toks, table()), Ok(*sum(vec![prod(vec![leaf(2), leaf(3)]), leaf(4)])));
}

#[test]
fn subtraction_groups_to_the_left() {
    let toks = vec![lit(8), op("-"), lit(3), op("-"), lit(2)];
    assert_eq!(parse(toks, table()), Ok(*sum(vec![leaf(8), neg(leaf(3)), neg(leaf(2))])));
}

#[test]
fn runs_become_one_node() {
    let toks = vec![lit(1), op("+"), lit(2), op("-"), lit(3), op("+"), lit(4)];
    assert_eq!(
        parse(toks, table()),
        Ok(*sum(vec![leaf(1), leaf(2), neg(leaf(3)), leaf(4)]))
    );
    let toks = vec![lit(1), op("*"), lit(2), op("/"), lit(3), op("*"), lit(4)];
    assert_eq!(
        parse(toks, table()),
        Ok(*prod(vec![leaf(1), leaf(2), recipr(leaf(3)), leaf(4)]))
    );
    let toks = vec![
        lit(1),
        op("+"),
        lit(2),
        op("*"),
        lit(3),
        op("*"),
        lit(4),
        op("-"),
        lit(5),
        op("/"),
        lit(6),
    ];
    assert_eq!(
        parse(toks, table()),
        Ok(*sum(vec![
            leaf(1),
            prod(vec![leaf(2), leaf(3), leaf(4)]),
            neg(prod(vec![leaf(5), recipr(leaf(6))]))
        ]))
    );
}

#[test]
fn a_parenthesised_sum_is_not_extended() {
    let toks = vec![Tok::LParen, lit(1), op("+"), lit(2), Tok::RParen, op("+"), lit(3)];
    assert_eq!(
        parse(toks, table()),
        Ok(*sum(vec![sum(vec![leaf(1), leaf(2)]), leaf(3)]))
    );
    let toks = vec![lit(1), op("+"), Tok::LParen, lit(2), op("+"), lit(3), Tok::RParen];
    assert_eq!(
        parse(toks, table()),
        Ok(*sum(vec![leaf(1), sum(vec![leaf(2), leaf(3)])]))
    );
    let toks = vec![Tok::LParen, lit(2), op("+"), lit(3), Tok::RParen, op("*"), lit(4)];
    assert_eq!(
        parse(toks, table()),
        Ok(*prod(vec![sum(vec![leaf(2), leaf(3)]), leaf(4)]))
    );
    let toks = vec![Tok::LParen, Tok::LParen, lit(7), Tok::RParen, Tok::RParen];
    assert_eq!(parse(toks, table()), Ok(*leaf(7)));
}

#[test]
fn primaries() {
    assert_eq!(parse(vec![Tok::Inf], table()), Ok(Expr::Const(Const::Inf)));
    assert_eq!(parse(vec![Tok::Undef], table()), Ok(Expr::Const(Const::Undef)));
    assert_eq!(parse(vec![name("x")], table()), Ok(*var("x")));
    let half = Const::Float(0x3FE0_0000_0000_0000);
    assert_eq!(parse(vec![Tok::Lit(half)], table()), Ok(Expr::Const(half)));
    assert_eq!(parse(vec![op("-"), lit(5)], table()), Ok(*neg(leaf(5))));
    assert_eq!(parse(vec![op("+"), lit(5)], table()), Ok(*leaf(5)));
    assert_eq!(parse(vec![op("-"), op("-"), name("x")], table()), Ok(*neg(neg(var("x")))));
    let toks = vec![op("-"), lit(2), op("*"), lit(3)];
    assert_eq!(parse(toks, table()), Ok(*prod(vec![neg(leaf(2)), leaf(3)])));
    let toks = vec![lit(2), op("*"), op("-"), lit(3)];
    assert_eq!(parse(toks, table()), Ok(*prod(vec![leaf(2), neg(leaf(3))])));
    let toks = vec![lit(2), op("-"), op("-"), lit(3)];
    assert_eq!(parse(toks, table()), Ok(*sum(vec![leaf(2), neg(neg(leaf(3)))])));
}

#[test]
fn other_operators_make_binary_nodes() {
    let toks = vec![lit(2), op("^"), lit(3)];
    assert_eq!(parse(toks, wide_table()), Ok(Expr::Pow(leaf(2), leaf(3))));
    let toks = vec![lit(7), op("%"), lit(3)];
    assert_eq!(parse(toks, wide_table()), Ok(*call("%", leaf(7), leaf(3))));
    // one level: to the left, and never flattened
    let toks = vec![lit(2), op("^"), lit(3), op("^"), lit(4)];
    assert_eq!(
        parse(toks, wide_table()),
        Ok(Expr::Pow(Box::new(Expr::Pow(leaf(2), leaf(3))), leaf(4)))
    );
    let toks = vec![lit(9), op("%"), lit(5), op("%"), lit(3)];
    assert_eq!(
        parse(toks, wide_table()),
        Ok(*call("%", call("%", leaf(9), leaf(5)), leaf(3)))
    );
    // a generic operator of the level of `*` ends the product before it
    let toks = vec![lit(2), op("*"), lit(3), op("%"), lit(4), op("*"), lit(5)];
    assert_eq!(
        parse(toks, wide_table()),
        Ok(*prod(vec![call("%", prod(vec![leaf(2), leaf(3)]), leaf(4)), leaf(5)]))
    );
}

#[test]
fn levels_decide_the_grouping() {
    let toks = vec![lit(1), op("+"), lit(2), op("*"), lit(3), op("^"), lit(4)];
    assert_eq!(
        parse(toks, wide_table()),
        Ok(*sum(vec![leaf(1), prod(vec![leaf(2), Box::new(Expr::Pow(leaf(3), leaf(4)))])]))
    );
    let toks = vec![lit(1), op("^"), lit(2), op("*"), lit(3), op("+"), lit(4)];
    assert_eq!(
        parse(toks, wide_table()),
        Ok(*sum(vec![prod(vec![Box::new(Expr::Pow(leaf(1), leaf(2))), leaf(3)]), leaf(4)]))
    );
    let toks = vec![lit(1), op("=="), lit(2), op("+"), lit(3), op("=="), lit(4)];
    assert_eq!(
        parse(toks, wide_table()),
        Ok(*call("==", call("==", leaf(1), sum(vec![leaf(2), leaf(3)])), leaf(4)))
    );
    let toks = vec![lit(1), op("+"), lit(2), op("^"), lit(3), op("*"), lit(4)];
    assert_eq!(
        parse(toks, wide_table()),
        Ok(*sum(vec![leaf(1), prod(vec![Box::new(Expr::Pow(leaf(2), leaf(3))), leaf(4)])]))
    );
}

#[test]
fn the_table_is_the_callers() {
    // with `+` above `*`, a sum is a factor
    let mut ops = OperatorTable::new();
    ops.insert(String::from("+"), 40);
    ops.insert(String::from("*"), 20);
    let toks = vec![lit(2), op("*"), lit(3), op("+"), lit(4)];
    assert_eq!(parse(toks, ops), Ok(*prod(vec![leaf(2), sum(vec![leaf(3), leaf(4)])])));
    // negative levels and the lowest level are levels like any other
    let mut ops = OperatorTable::new();
    ops.insert(String::from("+"), -128);
    ops.insert(String::from("*"), -100);
    ops.insert(String::from("^"), 127);
    let toks = vec![lit(1), op("+"), lit(2), op("*"), lit(3), op("^"), lit(4), op("+"), lit(5)];
    assert_eq!(
        parse(toks, ops),
        Ok(*sum(vec![
            leaf(1),
            prod(vec![leaf(2), Box::new(Expr::Pow(leaf(3), leaf(4)))]),
            leaf(5)
        ]))
    );
    // `-` above `+`: the difference is one term of the sum
    let mut ops = OperatorTable::new();
    ops.insert(String::from("+"), 20);
    ops.insert(String::from("-"), 30);
    let toks = vec![lit(1), op("+"), lit(2), op("-"), lit(3)];
    assert_eq!(parse(toks, ops), Ok(*sum(vec![leaf(1), sum(vec![leaf(2), neg(leaf(3))])])));
}

#[test]
fn failure_modes() {
    fails(Vec::new(), table(), ErrorKind::UnexpectedEndOfInput, 0);
    fails(vec![Tok::LParen, lit(5)], table(), ErrorKind::UnmatchedParenthesis, 0);
    fails(vec![lit(5), lit(3)], table(), ErrorKind::TrailingTokens, 1);
}

#[test]
fn more_failures() {
    fails(vec![lit(5), op("+")], table(), ErrorKind::UnexpectedEndOfInput, 2);
    fails(vec![op("-")], table(), ErrorKind::UnexpectedEndOfInput, 1);
    fails(vec![Tok::LParen], table(), ErrorKind::UnexpectedEndOfInput, 1);
    fails(vec![Tok::RParen], table(), ErrorKind::UnexpectedToken, 0);
    fails(vec![lit(1), op("+"), Tok::RParen], table(), ErrorKind::UnexpectedToken, 2);
    fails(vec![Tok::LParen, Tok::RParen], table(), ErrorKind::UnexpectedToken, 1);
    fails(vec![lit(5), Tok::RParen], table(), ErrorKind::TrailingTokens, 1);
    fails(vec![lit(5), Tok::LParen, lit(1), Tok::RParen], table(), ErrorKind::TrailingTokens, 1);
    fails(vec![name("f"), name("x")], table(), ErrorKind::TrailingTokens, 1);
    fails(
        vec![lit(1), op("+"), Tok::LParen, lit(2), op("*"), lit(3), lit(4), Tok::RParen],
        table(),
        ErrorKind::UnmatchedParenthesis,
        2,
    );
    fails(
        vec![Tok::LParen, Tok::LParen, lit(2), Tok::RParen],
        table(),
        ErrorKind::UnmatchedParenthesis,
        0,
    );
}

#[test]
fn unknown_operators() {
    fails(
        vec![lit(1), op("^"), lit(2)],
        table(),
        ErrorKind::UnknownOperator(String::from("^")),
        1,
    );
    fails(
        vec![lit(1), op("+"), lit(2), op("<>"), lit(3)],
        table(),
        ErrorKind::UnknownOperator(String::from("<>")),
        3,
    );
    fails(
        vec![lit(1), op("*"), lit(2), op("?")],
        table(),
        ErrorKind::UnknownOperator(String::from("?")),
        3,
    );
    // an operator that cannot stand in front of an operand
    fails(vec![op("*"), lit(2)], table(), ErrorKind::UnknownOperator(String::from("*")), 0);
    fails(
        vec![lit(1), op("+"), op("/"), lit(2)],
        table(),
        ErrorKind::UnknownOperator(String::from("/")),
        2,
    );
    // the operand is read first
    fails(vec![op("*")], table(), ErrorKind::UnexpectedEndOfInput, 1);
    fails(vec![op("*"), Tok::RParen], table(), ErrorKind::UnexpectedToken, 1);
    // with no table at all, every operator is unknown
    fails(
        vec![lit(1), op("+"), lit(2)],
        OperatorTable::new(),
        ErrorKind::UnknownOperator(String::from("+")),
        1,
    );
    assert_eq!(parse(vec![op("-"), lit(2)], OperatorTable::new()), Ok(*neg(leaf(2))));
}
