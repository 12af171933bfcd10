//! What a token sequence means: the expression grammar as mathematical
//! functions on token sequences.
//!
//! An expression is a primary followed by any number of binary operators
//! with their right operands. Operators group by the levels of the operator
//! table: a higher level binds tighter, and operators of one level group to
//! the left. Runs of `+`/`-` and of `*`/`/` at one syntactic level become a
//! single `Sum` or `Prod` node.

use crate::expr::{ConstView, ExprView, FuncView};
use crate::lexer::TokView;
use vstd::prelude::*;

verus! {

/// Why a token sequence is not an expression.
pub enum ErrorKindView {
    UnexpectedEndOfInput,
    UnexpectedToken,
    UnknownOperator(Seq<char>),
    UnmatchedParenthesis,
    TrailingTokens,
}

/// A parse failure: its kind, and the index of the token it is about.
pub struct ErrorView {
    pub kind: ErrorKindView,
    pub position: nat,
}

/// An expression and the index of the first token after it, or a failure.
pub type Parsed = Result<(ExprView, nat), ErrorView>;

/// Whether the left operand of the next operator is a `Sum` or `Prod` node
/// that the present run of operators built, and that the next operator of
/// the same family extends.
#[derive(Clone, Copy, PartialEq, Eq, Structural, Debug)]
pub enum Run {
    /// The left operand is a finished expression.
    Closed,
    /// The left operand is a `Sum` under construction.
    Sum,
    /// The left operand is a `Prod` under construction.
    Prod,
}

/// The level below which no operator lies: where an expression starts.
pub open spec fn lowest_level() -> int {
    i8::MIN as int
}

/// The failure of kind `kind` at the token `position`.
pub open spec fn failure(kind: ErrorKindView, position: nat) -> Parsed {
    Err(ErrorView { kind, position })
}

/// `left` with one more term: appended, if `left` is the sum being built.
pub open spec fn push_term(left: ExprView, run: Run, term: ExprView) -> ExprView {
    match (run, left) {
        (Run::Sum, ExprView::Sum(terms)) => ExprView::Sum(terms.push(term)),
        _ => ExprView::Sum(seq![left, term]),
    }
}

/// `left` with one more factor: appended, if `left` is the product being built.
pub open spec fn push_factor(left: ExprView, run: Run, factor: ExprView) -> ExprView {
    match (run, left) {
        (Run::Prod, ExprView::Prod(factors)) => ExprView::Prod(factors.push(factor)),
        _ => ExprView::Prod(seq![left, factor]),
    }
}

/// The node for `left symbol right`. Subtraction adds the negation and
/// division multiplies by the reciprocal; `^` is a power; any other symbol
/// is a call of that name with two arguments.
pub open spec fn fold(left: ExprView, run: Run, symbol: Seq<char>, right: ExprView) -> ExprView {
    if symbol == seq!['+'] {
        push_term(left, run, right)
    } else if symbol == seq!['-'] {
        push_term(left, run, ExprView::Neg(Box::new(right)))
    } else if symbol == seq!['*'] {
        push_factor(left, run, right)
    } else if symbol == seq!['/'] {
        push_factor(left, run, ExprView::Recipr(Box::new(right)))
    } else if symbol == seq!['^'] {
        ExprView::Pow(Box::new(left), Box::new(right))
    } else {
        ExprView::Call(FuncView::Func(symbol), seq![left, right])
    }
}

/// The run that the node for `symbol` leaves open.
pub open spec fn run_after(symbol: Seq<char>) -> Run {
    if symbol == seq!['+'] || symbol == seq!['-'] {
        Run::Sum
    } else if symbol == seq!['*'] || symbol == seq!['/'] {
        Run::Prod
    } else {
        Run::Closed
    }
}

/// The token at `pos` is an operator of the table whose level is above `level`.
pub open spec fn binds_tighter(
    toks: Seq<TokView>,
    ops: Map<Seq<char>, i8>,
    pos: nat,
    level: int,
) -> bool {
    &&& pos < toks.len()
    &&& toks[pos as int] matches TokView::Op(symbol)
    &&& ops.contains_key(symbol)
    &&& ops[symbol] > level
}

/// The primary that starts at `pos`: a keyword, a literal, a name, a
/// parenthesised expression, or `+` or `-` in front of a primary.
///
/// In this and the next two functions, a test that a part ended after the
/// place where it started, and within the tokens, stands before each step
/// that goes on from there. The test never fails (`lemma_primary_advances`
/// and the two lemmas after it); it is there to show that the definitions
/// are well-founded.
pub open spec fn spec_primary(toks: Seq<TokView>, ops: Map<Seq<char>, i8>, pos: nat) -> Parsed
    decreases toks.len() - pos, 0int,
{
    if pos >= toks.len() {
        failure(ErrorKindView::UnexpectedEndOfInput, pos)
    } else {
        match toks[pos as int] {
            TokView::Inf => Ok((ExprView::Const(ConstView::Inf), pos + 1)),
            TokView::Undef => Ok((ExprView::Const(ConstView::Undef), pos + 1)),
            TokView::Lit(c) => Ok((ExprView::Const(c), pos + 1)),
            TokView::Iden(name) => Ok((ExprView::Var(name), pos + 1)),
            TokView::Op(symbol) => match spec_primary(toks, ops, pos + 1) {
                Err(e) => Err(e),
                Ok((operand, next)) => if symbol == seq!['+'] {
                    Ok((operand, next))
                } else if symbol == seq!['-'] {
                    Ok((ExprView::Neg(Box::new(operand)), next))
                } else {
                    failure(ErrorKindView::UnknownOperator(symbol), pos)
                },
            },
            TokView::LParen => match spec_expr(toks, ops, pos + 1) {
                Err(e) => Err(e),
                Ok((inner, next)) => if next < toks.len() && toks[next as int] is RParen {
                    Ok((inner, next + 1))
                } else {
                    failure(ErrorKindView::UnmatchedParenthesis, pos)
                },
            },
            TokView::RParen => failure(ErrorKindView::UnexpectedToken, pos),
        }
    }
}

/// The right operand of an operator of level `level`, which starts at
/// `pos`: a primary, extended by the operators above `level` if the
/// operator that follows it binds tighter than `level`.
pub open spec fn spec_operand(
    toks: Seq<TokView>,
    ops: Map<Seq<char>, i8>,
    level: int,
    pos: nat,
) -> Parsed
    decreases toks.len() - pos, 1int,
{
    match spec_primary(toks, ops, pos) {
        Err(e) => Err(e),
        Ok((right, next)) => if pos < next && binds_tighter(toks, ops, next, level) {
            spec_climb(toks, ops, right, Run::Closed, level + 1, next)
        } else {
            Ok((right, next))
        },
    }
}

/// The expression that starts at `pos`: a primary, extended by every
/// operator that follows.
pub open spec fn spec_expr(toks: Seq<TokView>, ops: Map<Seq<char>, i8>, pos: nat) -> Parsed
    decreases toks.len() - pos, 2int,
{
    match spec_primary(toks, ops, pos) {
        Err(e) => Err(e),
        Ok((left, next)) => if pos < next <= toks.len() {
            spec_climb(toks, ops, left, Run::Closed, lowest_level(), next)
        } else {
            Ok((left, next))
        },
    }
}

/// `left`, extended by the operators from `pos` on whose level is at least
/// `floor`.
///
/// If the token at `pos` is no operator, or one of a level below `floor`,
/// the result is `left`. Otherwise the node of `left` and the operator's
/// right operand takes the place of `left`, and the extension goes on
/// behind that operand.
pub open spec fn spec_climb(
    toks: Seq<TokView>,
    ops: Map<Seq<char>, i8>,
    left: ExprView,
    run: Run,
    floor: int,
    pos: nat,
) -> Parsed
    decreases toks.len() - pos, 3int,
{
    if pos < toks.len() && toks[pos as int] is Op {
        let symbol = toks[pos as int]->Op_0;
        if !ops.contains_key(symbol) {
            failure(ErrorKindView::UnknownOperator(symbol), pos)
        } else if ops[symbol] < floor {
            Ok((left, pos))
        } else {
            match spec_operand(toks, ops, ops[symbol] as int, pos + 1) {
                Err(e) => Err(e),
                Ok((right, next)) => if pos < next <= toks.len() {
                    spec_climb(
                        toks,
                        ops,
                        fold(left, run, symbol, right),
                        run_after(symbol),
                        floor,
                        next,
                    )
                } else {
                    Ok((left, pos))
                },
            }
        }
    } else {
        Ok((left, pos))
    }
}

/// The expression that the whole of `toks` is, or why it is none.
pub open spec fn spec_parse(toks: Seq<TokView>, ops: Map<Seq<char>, i8>) -> Result<
    ExprView,
    ErrorView,
> {
    match spec_expr(toks, ops, 0) {
        Err(e) => Err(e),
        Ok((expr, next)) => if next == toks.len() {
            Ok(expr)
        } else {
            Err(ErrorView { kind: ErrorKindView::TrailingTokens, position: next })
        },
    }
}

/// A primary holds at least one token and ends within the tokens.
pub proof fn lemma_primary_advances(toks: Seq<TokView>, ops: Map<Seq<char>, i8>, pos: nat)
    ensures
        spec_primary(toks, ops, pos) matches Ok((_, next)) ==> pos < next <= toks.len(),
    decreases toks.len() - pos, 0int,
{
    if pos < toks.len() {
        match toks[pos as int] {
            TokView::Op(_) => {
                lemma_primary_advances(toks, ops, pos + 1);
            },
            TokView::LParen => {
                lemma_expr_advances(toks, ops, pos + 1);
            },
            _ => {},
        }
    }
}

/// A right operand holds at least one token and ends within the tokens.
pub proof fn lemma_operand_advances(
    toks: Seq<TokView>,
    ops: Map<Seq<char>, i8>,
    level: int,
    pos: nat,
)
    ensures
        spec_operand(toks, ops, level, pos) matches Ok((_, next)) ==> pos < next <= toks.len(),
    decreases toks.len() - pos, 1int,
{
    lemma_primary_advances(toks, ops, pos);
    if let Ok((right, next)) = spec_primary(toks, ops, pos) {
        if binds_tighter(toks, ops, next, level) {
            lemma_climb_advances(toks, ops, right, Run::Closed, level + 1, next);
        }
    }
}

/// An expression holds at least one token and ends within the tokens.
pub proof fn lemma_expr_advances(toks: Seq<TokView>, ops: Map<Seq<char>, i8>, pos: nat)
    ensures
        spec_expr(toks, ops, pos) matches Ok((_, next)) ==> pos < next <= toks.len(),
    decreases toks.len() - pos, 2int,
{
    lemma_primary_advances(toks, ops, pos);
    if let Ok((left, next)) = spec_primary(toks, ops, pos) {
        lemma_climb_advances(toks, ops, left, Run::Closed, lowest_level(), next);
    }
}

/// Extending an operand ends at or after the place where it starts, within
/// the tokens.
pub proof fn lemma_climb_advances(
    toks: Seq<TokView>,
    ops: Map<Seq<char>, i8>,
    left: ExprView,
    run: Run,
    floor: int,
    pos: nat,
)
    requires
        pos <= toks.len(),
    ensures
        spec_climb(toks, ops, left, run, floor, pos) matches Ok((_, next)) ==> pos <= next
            <= toks.len(),
    decreases toks.len() - pos, 3int,
{
    if pos < toks.len() && toks[pos as int] is Op {
        let symbol = toks[pos as int]->Op_0;
        if ops.contains_key(symbol) && ops[symbol] >= floor {
            lemma_operand_advances(toks, ops, ops[symbol] as int, pos + 1);
            if let Ok((right, next)) = spec_operand(toks, ops, ops[symbol] as int, pos + 1) {
                lemma_climb_advances(
                    toks,
                    ops,
                    fold(left, run, symbol, right),
                    run_after(symbol),
                    floor,
                    next,
                );
            }
        }
    }
}

/// A token sequence that is an expression is one in full: parsing succeeds
/// exactly where the expression that starts the tokens ends with them.
pub proof fn lemma_parse_consumes_all(toks: Seq<TokView>, ops: Map<Seq<char>, i8>)
    ensures
        spec_parse(toks, ops) matches Ok(expr) ==> spec_expr(toks, ops, 0) == Parsed::Ok(
            (expr, toks.len()),
        ),
        spec_parse(toks, ops) is Ok ==> toks.len() > 0,
{
    lemma_expr_advances(toks, ops, 0);
}

/// Precedence and associativity, on three literals with two operators of
/// the table between them: the second operator takes the middle operand if
/// and only if its level is the higher one. Else the first operator does,
/// and so operators of one level group to the left.
pub proof fn lemma_two_operators(
    toks: Seq<TokView>,
    ops: Map<Seq<char>, i8>,
    a: ConstView,
    first: Seq<char>,
    b: ConstView,
    second: Seq<char>,
    c: ConstView,
)
    requires
        toks == seq![
            TokView::Lit(a),
            TokView::Op(first),
            TokView::Lit(b),
            TokView::Op(second),
            TokView::Lit(c),
        ],
        ops.contains_key(first),
        ops.contains_key(second),
    ensures
        spec_parse(toks, ops) == Ok::<ExprView, ErrorView>(
            if ops[second] > ops[first] {
                fold(
                    ExprView::Const(a),
                    Run::Closed,
                    first,
                    fold(ExprView::Const(b), Run::Closed, second, ExprView::Const(c)),
                )
            } else {
                fold(
                    fold(ExprView::Const(a), Run::Closed, first, ExprView::Const(b)),
                    run_after(first),
                    second,
                    ExprView::Const(c),
                )
            },
        ),
{
    let x = ExprView::Const(a);
    let y = ExprView::Const(b);
    let z = ExprView::Const(c);
    assert(spec_primary(toks, ops, 0) == Parsed::Ok((x, 1nat)));
    assert(spec_primary(toks, ops, 2) == Parsed::Ok((y, 3nat)));
    assert(spec_primary(toks, ops, 4) == Parsed::Ok((z, 5nat)));
    assert(spec_operand(toks, ops, ops[second] as int, 4) == Parsed::Ok((z, 5nat)));
    if ops[second] > ops[first] {
        let right = fold(y, Run::Closed, second, z);
        assert(binds_tighter(toks, ops, 3, ops[first] as int));
        assert(spec_climb(toks, ops, right, run_after(second), ops[first] + 1, 5) == Parsed::Ok(
            (right, 5nat),
        ));
        assert(spec_climb(toks, ops, y, Run::Closed, ops[first] + 1, 3) == Parsed::Ok(
            (right, 5nat),
        ));
        assert(spec_operand(toks, ops, ops[first] as int, 2) == Parsed::Ok((right, 5nat)));
        let whole = fold(x, Run::Closed, first, right);
        assert(spec_climb(toks, ops, whole, run_after(first), lowest_level(), 5) == Parsed::Ok(
            (whole, 5nat),
        ));
        assert(spec_climb(toks, ops, x, Run::Closed, lowest_level(), 1) == Parsed::Ok(
            (whole, 5nat),
        ));
    } else {
        let left = fold(x, Run::Closed, first, y);
        let whole = fold(left, run_after(first), second, z);
        assert(!binds_tighter(toks, ops, 3, ops[first] as int));
        assert(spec_operand(toks, ops, ops[first] as int, 2) == Parsed::Ok((y, 3nat)));
        assert(spec_climb(toks, ops, whole, run_after(second), lowest_level(), 5) == Parsed::Ok(
            (whole, 5nat),
        ));
        assert(spec_climb(toks, ops, left, run_after(first), lowest_level(), 3) == Parsed::Ok(
            (whole, 5nat),
        ));
        assert(spec_climb(toks, ops, x, Run::Closed, lowest_level(), 1) == Parsed::Ok(
            (whole, 5nat),
        ));
    }
}

/// The tokens are literals with operators of one family between them,
/// `+` and `-` or `*` and `/`, which the table holds at one level.
pub open spec fn is_run(toks: Seq<TokView>, ops: Map<Seq<char>, i8>, family: Run) -> bool {
    &&& family != Run::Closed
    &&& toks.len() % 2 == 1
    &&& forall|i: int| 0 <= i < toks.len() && i % 2 == 0 ==> (#[trigger] toks[i]) is Lit
    &&& forall|i: int|
        0 <= i < toks.len() && i % 2 == 1 ==> {
            &&& (#[trigger] toks[i]) matches TokView::Op(symbol)
            &&& run_after(symbol) == family
            &&& ops.contains_key(symbol)
        }
    &&& forall|i: int, j: int|
        0 <= i < toks.len() && 0 <= j < toks.len() && i % 2 == 1 && j % 2 == 1 ==> ops[(
        #[trigger] toks[i])->Op_0] == ops[(#[trigger] toks[j])->Op_0]
}

/// The child that the literal at `2 * i` becomes in the node of a run: the
/// first one itself, a later one after `-` its negation, after `/` its
/// reciprocal.
pub open spec fn run_child(toks: Seq<TokView>, i: int) -> ExprView {
    let operand = ExprView::Const(toks[2 * i]->Lit_0);
    if i == 0 {
        operand
    } else if toks[2 * i - 1]->Op_0 == seq!['-'] {
        ExprView::Neg(Box::new(operand))
    } else if toks[2 * i - 1]->Op_0 == seq!['/'] {
        ExprView::Recipr(Box::new(operand))
    } else {
        operand
    }
}

/// The first `n` children of the node of a run.
pub open spec fn run_children(toks: Seq<TokView>, n: int) -> Seq<ExprView> {
    Seq::new(n as nat, |i: int| run_child(toks, i))
}

/// The node of a run with the children `children`.
pub open spec fn run_node(family: Run, children: Seq<ExprView>) -> ExprView {
    if family == Run::Sum {
        ExprView::Sum(children)
    } else {
        ExprView::Prod(children)
    }
}

/// Flattening: a run of two or more literals is one `Sum` or `Prod` node
/// with one child for each literal, in order.
pub proof fn lemma_run_is_one_node(toks: Seq<TokView>, ops: Map<Seq<char>, i8>, family: Run)
    requires
        is_run(toks, ops, family),
        toks.len() >= 3,
    ensures
        spec_parse(toks, ops) == Ok::<ExprView, ErrorView>(
            run_node(family, run_children(toks, (toks.len() as int + 1) / 2)),
        ),
{
    let first = ExprView::Const(toks[0]->Lit_0);
    assert(spec_primary(toks, ops, 0) == Parsed::Ok((first, 1nat)));
    let symbol = toks[1]->Op_0;
    let second = ExprView::Const(toks[2]->Lit_0);
    assert(spec_primary(toks, ops, 2) == Parsed::Ok((second, 3nat)));
    lemma_run_not_tighter(toks, ops, family, 1);
    assert(spec_operand(toks, ops, ops[symbol] as int, 2) == Parsed::Ok((second, 3nat)));
    let pair = fold(first, Run::Closed, symbol, second);
    assert(pair == run_node(family, run_children(toks, 2))) by {
        lemma_run_symbols(toks, ops, family, 1);
        lemma_symbols_differ();
        assert(run_children(toks, 2) =~= seq![run_child(toks, 0), run_child(toks, 1)]);
    }
    lemma_run_extends(toks, ops, family, 1);
    assert(spec_climb(toks, ops, first, Run::Closed, lowest_level(), 1) == spec_climb(
        toks,
        ops,
        pair,
        family,
        lowest_level(),
        3,
    ));
}

/// The four symbols of the two families differ from each other.
proof fn lemma_symbols_differ()
    ensures
        seq!['+'] != seq!['-'],
        seq!['+'] != seq!['*'],
        seq!['+'] != seq!['/'],
        seq!['-'] != seq!['*'],
        seq!['-'] != seq!['/'],
        seq!['*'] != seq!['/'],
{
    assert(seq!['+'][0] == '+' && seq!['-'][0] == '-' && seq!['*'][0] == '*' && seq!['/'][0]
        == '/');
}

/// The symbols of a family, and none of them is the other family's.
proof fn lemma_run_symbols(toks: Seq<TokView>, ops: Map<Seq<char>, i8>, family: Run, k: int)
    requires
        is_run(toks, ops, family),
        0 <= 2 * k - 1 < toks.len(),
    ensures
        ({
            let symbol = toks[2 * k - 1]->Op_0;
            if family == Run::Sum {
                (symbol == seq!['+'] || symbol == seq!['-']) && symbol != seq!['*'] && symbol
                    != seq!['/']
            } else {
                (symbol == seq!['*'] || symbol == seq!['/']) && symbol != seq!['+'] && symbol
                    != seq!['-']
            }
        }),
{
    let symbol = toks[2 * k - 1]->Op_0;
    assert(toks[2 * k - 1] is Op);
    assert(run_after(symbol) == family);
    lemma_symbols_differ();
}

/// Within a run, the operator after an operand never binds tighter than
/// the one before it.
proof fn lemma_run_not_tighter(toks: Seq<TokView>, ops: Map<Seq<char>, i8>, family: Run, k: int)
    requires
        is_run(toks, ops, family),
        0 <= 2 * k - 1 < toks.len(),
    ensures
        !binds_tighter(toks, ops, (2 * k + 1) as nat, ops[toks[2 * k - 1]->Op_0] as int),
{
    assert(toks[2 * k - 1] is Op);
    if 2 * k + 1 < toks.len() {
        assert(toks[2 * k + 1] is Op);
    }
}

/// From the operator at `2 * k + 1` on, a run extends the node of its first
/// `k + 1` literals to the node of all of them.
proof fn lemma_run_extends(toks: Seq<TokView>, ops: Map<Seq<char>, i8>, family: Run, k: int)
    requires
        is_run(toks, ops, family),
        1 <= k,
        2 * k + 1 <= toks.len(),
    ensures
        spec_climb(
            toks,
            ops,
            run_node(family, run_children(toks, k + 1)),
            family,
            lowest_level(),
            (2 * k + 1) as nat,
        ) == Parsed::Ok(
            (run_node(family, run_children(toks, (toks.len() as int + 1) / 2)), toks.len()),
        ),
    decreases toks.len() - 2 * k,
{
    let pos = (2 * k + 1) as nat;
    let left = run_node(family, run_children(toks, k + 1));
    if pos < toks.len() {
        let symbol = toks[pos as int]->Op_0;
        assert(toks[pos as int] is Op);
        assert(toks[2 * k + 2] is Lit);
        let right = ExprView::Const(toks[2 * k + 2]->Lit_0);
        assert(spec_primary(toks, ops, pos + 1) == Parsed::Ok((right, pos + 2)));
        lemma_run_not_tighter(toks, ops, family, k + 1);
        assert(spec_operand(toks, ops, ops[symbol] as int, pos + 1) == Parsed::Ok(
            (right, pos + 2),
        ));
        lemma_run_symbols(toks, ops, family, k + 1);
        let next = fold(left, family, symbol, right);
        assert(next == run_node(family, run_children(toks, k + 2))) by {
            lemma_symbols_differ();
            assert(toks[2 * (k + 1) - 1] == toks[pos as int]);
            assert(run_children(toks, k + 2) =~= run_children(toks, k + 1).push(
                run_child(toks, k + 1),
            ));
        }
        lemma_run_extends(toks, ops, family, k + 1);
    } else {
        assert(k + 1 == (toks.len() + 1) / 2);
    }
}

/// Two tables say the same of every operator among the tokens.
pub open spec fn tables_agree(
    toks: Seq<TokView>,
    ops: Map<Seq<char>, i8>,
    other: Map<Seq<char>, i8>,
) -> bool {
    forall|i: int|
        0 <= i < toks.len() ==> ((#[trigger] toks[i]) matches TokView::Op(symbol) ==> {
            &&& ops.contains_key(symbol) == other.contains_key(symbol)
            &&& ops.contains_key(symbol) ==> ops[symbol] == other[symbol]
        })
}

/// Only the operators among the tokens matter: with two tables that say
/// the same of them, the tokens are the same expression, or fail alike.
pub proof fn lemma_table_relevance(
    toks: Seq<TokView>,
    ops: Map<Seq<char>, i8>,
    other: Map<Seq<char>, i8>,
)
    requires
        tables_agree(toks, ops, other),
    ensures
        spec_parse(toks, ops) == spec_parse(toks, other),
{
    lemma_expr_relevance(toks, ops, other, 0);
}

/// `lemma_table_relevance`, for a primary.
pub proof fn lemma_primary_relevance(
    toks: Seq<TokView>,
    ops: Map<Seq<char>, i8>,
    other: Map<Seq<char>, i8>,
    pos: nat,
)
    requires
        tables_agree(toks, ops, other),
    ensures
        spec_primary(toks, ops, pos) == spec_primary(toks, other, pos),
    decreases toks.len() - pos, 0int,
{
    if pos < toks.len() {
        match toks[pos as int] {
            TokView::Op(_) => {
                lemma_primary_relevance(toks, ops, other, pos + 1);
            },
            TokView::LParen => {
                lemma_expr_relevance(toks, ops, other, pos + 1);
            },
            _ => {},
        }
    }
}

/// `lemma_table_relevance`, for a right operand.
pub proof fn lemma_operand_relevance(
    toks: Seq<TokView>,
    ops: Map<Seq<char>, i8>,
    other: Map<Seq<char>, i8>,
    level: int,
    pos: nat,
)
    requires
        tables_agree(toks, ops, other),
    ensures
        spec_operand(toks, ops, level, pos) == spec_operand(toks, other, level, pos),
    decreases toks.len() - pos, 1int,
{
    lemma_primary_relevance(toks, ops, other, pos);
    if let Ok((right, next)) = spec_primary(toks, ops, pos) {
        if pos < next && binds_tighter(toks, ops, next, level) {
            lemma_climb_relevance(toks, ops, other, right, Run::Closed, level + 1, next);
        }
    }
}

/// `lemma_table_relevance`, for an expression.
pub proof fn lemma_expr_relevance(
    toks: Seq<TokView>,
    ops: Map<Seq<char>, i8>,
    other: Map<Seq<char>, i8>,
    pos: nat,
)
    requires
        tables_agree(toks, ops, other),
    ensures
        spec_expr(toks, ops, pos) == spec_expr(toks, other, pos),
    decreases toks.len() - pos, 2int,
{
    lemma_primary_relevance(toks, ops, other, pos);
    if let Ok((left, next)) = spec_primary(toks, ops, pos) {
        if pos < next <= toks.len() {
            lemma_climb_relevance(toks, ops, other, left, Run::Closed, lowest_level(), next);
        }
    }
}

/// `lemma_table_relevance`, for the extension of an operand.
pub proof fn lemma_climb_relevance(
    toks: Seq<TokView>,
    ops: Map<Seq<char>, i8>,
    other: Map<Seq<char>, i8>,
    left: ExprView,
    run: Run,
    floor: int,
    pos: nat,
)
    requires
        tables_agree(toks, ops, other),
    ensures
        spec_climb(toks, ops, left, run, floor, pos) == spec_climb(
            toks,
            other,
            left,
            run,
            floor,
            pos,
        ),
    decreases toks.len() - pos, 3int,
{
    if pos < toks.len() && toks[pos as int] is Op {
        let symbol = toks[pos as int]->Op_0;
        if ops.contains_key(symbol) && ops[symbol] >= floor {
            lemma_operand_relevance(toks, ops, other, ops[symbol] as int, pos + 1);
            if let Ok((right, next)) = spec_operand(toks, ops, ops[symbol] as int, pos + 1) {
                if pos < next <= toks.len() {
                    lemma_climb_relevance(
                        toks,
                        ops,
                        other,
                        fold(left, run, symbol, right),
                        run_after(symbol),
                        floor,
                        next,
                    );
                }
            }
        }
    }
}

} // verus!
