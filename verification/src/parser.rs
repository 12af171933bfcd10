//! The parser: from a token sequence and an operator table to an expression
//! tree, by precedence climbing.

use crate::expr::{Const, Expr, Func};
use crate::grammar::{
    binds_tighter, fold, push_factor, push_term, run_after, spec_climb, spec_expr, spec_operand,
    spec_parse, spec_primary, ErrorKindView, ErrorView, Parsed, Run,
};
use crate::lexer::{tok_views, Tok, TokView};
use crate::table::OperatorTable;
use vstd::prelude::*;
use vstd::string::StrSliceExecFns;

verus! {

/// Why a token sequence is not an expression.
#[derive(Debug, PartialEq)]
pub enum ErrorKind {
    /// An expression was expected where the tokens end.
    UnexpectedEndOfInput,
    /// A token stands where no expression can start.
    UnexpectedToken,
    /// An operator that the table does not hold, or that cannot stand in
    /// front of an operand.
    UnknownOperator(String),
    /// An opening parenthesis was never closed.
    UnmatchedParenthesis,
    /// Tokens are left after a complete expression.
    TrailingTokens,
}

/// A parse failure: its kind, and the index of the token it is about.
#[derive(Debug, PartialEq)]
pub struct Error {
    pub kind: ErrorKind,
    pub position: usize,
}

impl View for ErrorKind {
    type V = ErrorKindView;

    open spec fn view(&self) -> ErrorKindView {
        match self {
            ErrorKind::UnexpectedEndOfInput => ErrorKindView::UnexpectedEndOfInput,
            ErrorKind::UnexpectedToken => ErrorKindView::UnexpectedToken,
            ErrorKind::UnknownOperator(symbol) => ErrorKindView::UnknownOperator(symbol@),
            ErrorKind::UnmatchedParenthesis => ErrorKindView::UnmatchedParenthesis,
            ErrorKind::TrailingTokens => ErrorKindView::TrailingTokens,
        }
    }
}

impl View for Error {
    type V = ErrorView;

    open spec fn view(&self) -> ErrorView {
        ErrorView { kind: self.kind@, position: self.position as nat }
    }
}

/// The outcome `r` of a parsing step that left the cursor at `pos` is the
/// outcome `parsed` of the grammar.
pub open spec fn agrees(r: Result<Expr, Error>, pos: usize, parsed: Parsed) -> bool {
    match parsed {
        Ok((expr, next)) => r matches Ok(e) && e@ == expr && pos == next,
        Err(failure) => r matches Err(e) && e@ == failure,
    }
}

/// Whether `symbol` is the one character `c`.
fn is_symbol(symbol: &String, c: char) -> (r: bool)
    ensures
        r == (symbol@ == seq![c]),
{
    let s = symbol.as_str();
    if s.unicode_len() == 1 {
        let first = s.get_char(0);
        assert(first == c ==> symbol@ =~= seq![c]);
        first == c
    } else {
        false
    }
}

/// `left` with one more term.
fn fold_sum(left: Expr, run: Run, term: Expr) -> (r: Expr)
    ensures
        r@ == push_term(left@, run, term@),
{
    match left {
        Expr::Sum(terms) if matches!(run, Run::Sum) => {
            let mut terms = terms;
            let ghost before = Expr::models(&terms);
            terms.push(Box::new(term));
            assert(Expr::models(&terms) =~= before.push(term@));
            Expr::Sum(terms)
        },
        other => {
            let ghost left_view = other@;
            let mut terms: Vec<Box<Expr>> = Vec::new();
            terms.push(Box::new(other));
            terms.push(Box::new(term));
            assert(Expr::models(&terms) =~= seq![left_view, term@]);
            Expr::Sum(terms)
        },
    }
}

/// `left` with one more factor.
fn fold_product(left: Expr, run: Run, factor: Expr) -> (r: Expr)
    ensures
        r@ == push_factor(left@, run, factor@),
{
    match left {
        Expr::Prod(factors) if matches!(run, Run::Prod) => {
            let mut factors = factors;
            let ghost before = Expr::models(&factors);
            factors.push(Box::new(factor));
            assert(Expr::models(&factors) =~= before.push(factor@));
            Expr::Prod(factors)
        },
        other => {
            let ghost left_view = other@;
            let mut factors: Vec<Box<Expr>> = Vec::new();
            factors.push(Box::new(other));
            factors.push(Box::new(factor));
            assert(Expr::models(&factors) =~= seq![left_view, factor@]);
            Expr::Prod(factors)
        },
    }
}

/// The node of an operator that is none of `+`, `-`, `*` and `/`: a power
/// for `^`, else a call of the symbol with two arguments.
fn binary_node(left: Expr, symbol: &String, right: Expr) -> (r: Expr)
    requires
        run_after(symbol@) == Run::Closed,
    ensures
        forall|run: Run| r@ == #[trigger] fold(left@, run, symbol@, right@),
{
    if is_symbol(symbol, '^') {
        Expr::Pow(Box::new(left), Box::new(right))
    } else {
        let ghost left_view = left@;
        let ghost right_view = right@;
        let mut arguments: Vec<Box<Expr>> = Vec::new();
        arguments.push(Box::new(left));
        arguments.push(Box::new(right));
        assert(Expr::models(&arguments) =~= seq![left_view, right_view]);
        Expr::Call(Func::Func(symbol.clone()), arguments)
    }
}

/// The run that the node for `symbol` leaves open.
fn next_run(symbol: &String) -> (run: Run)
    ensures
        run == run_after(symbol@),
{
    if is_symbol(symbol, '+') || is_symbol(symbol, '-') {
        Run::Sum
    } else if is_symbol(symbol, '*') || is_symbol(symbol, '/') {
        Run::Prod
    } else {
        Run::Closed
    }
}

/// A read cursor over a token sequence.
struct Parser<'a> {
    toks: &'a Vec<Tok>,
    ops: &'a OperatorTable,
    pos: usize,
}

impl<'a> Parser<'a> {
    /// The tokens as mathematical values.
    spec fn tokens(&self) -> Seq<TokView> {
        tok_views(self.toks@)
    }

    /// The cursor is within the tokens or at their end.
    spec fn wf(&self) -> bool {
        self.pos <= self.toks.len()
    }

    /// The same tokens and table as `before`.
    spec fn continues(&self, before: &Parser<'a>) -> bool {
        self.toks == before.toks && self.ops == before.ops && self.wf()
    }

    /// No token is left.
    fn is_done(&self) -> (done: bool)
        requires
            self.wf(),
        ensures
            done == (self.pos == self.toks.len()),
    {
        self.pos >= self.toks.len()
    }

    /// Whether the next token is an operator that binds tighter than `level`.
    fn next_binds_tighter(&self, level: i8) -> (tighter: bool)
        requires
            self.wf(),
        ensures
            tighter == binds_tighter(self.tokens(), self.ops@, self.pos as nat, level as int),
    {
        if self.pos < self.toks.len() {
            match &self.toks[self.pos] {
                Tok::Op(symbol) => match self.ops.get(symbol) {
                    Some(next_level) => next_level > level,
                    None => false,
                },
                _ => false,
            }
        } else {
            false
        }
    }

    /// Parses what follows an opening parenthesis, the cursor being on it.
    fn parse_paren_expr(&mut self) -> (r: Result<Expr, Error>)
        requires
            old(self).wf(),
            old(self).pos < old(self).toks.len(),
            old(self).toks[old(self).pos as int] is LParen,
        ensures
            final(self).continues(old(self)),
            agrees(
                r,
                final(self).pos,
                spec_primary(old(self).tokens(), old(self).ops@, old(self).pos as nat),
            ),
            r is Ok ==> old(self).pos < final(self).pos,
        decreases old(self).toks.len() - old(self).pos, 0int, 0int,
    {
        let open = self.pos;
        self.pos = self.pos + 1;
        match self.parse_expr() {
            Err(e) => Err(e),
            Ok(inner) => {
                if self.pos < self.toks.len() {
                    if let Tok::RParen = &self.toks[self.pos] {
                        self.pos = self.pos + 1;
                        return Ok(inner);
                    }
                }
                Err(Error { kind: ErrorKind::UnmatchedParenthesis, position: open })
            },
        }
    }

    /// Parses an expression: a primary and every operator that extends it.
    fn parse_expr(&mut self) -> (r: Result<Expr, Error>)
        requires
            old(self).wf(),
        ensures
            final(self).continues(old(self)),
            agrees(
                r,
                final(self).pos,
                spec_expr(old(self).tokens(), old(self).ops@, old(self).pos as nat),
            ),
            r is Ok ==> old(self).pos < final(self).pos,
        decreases old(self).toks.len() - old(self).pos, 3int, 0int,
    {
        match self.parse_primary() {
            Err(e) => Err(e),
            Ok(left) => self.parse_bin_op_rhs(left, i8::MIN as i16),
        }
    }

    /// Parses the right operand of an operator of level `level`: a primary,
    /// and the operators above `level` that extend it.
    fn parse_operand(&mut self, level: i8) -> (r: Result<Expr, Error>)
        requires
            old(self).wf(),
        ensures
            final(self).continues(old(self)),
            agrees(
                r,
                final(self).pos,
                spec_operand(
                    old(self).tokens(),
                    old(self).ops@,
                    level as int,
                    old(self).pos as nat,
                ),
            ),
            r is Ok ==> old(self).pos < final(self).pos,
        decreases old(self).toks.len() - old(self).pos, 1int, 0int,
    {
        match self.parse_primary() {
            Err(e) => Err(e),
            Ok(right) => {
                if self.next_binds_tighter(level) {
                    self.parse_bin_op_rhs(right, level as i16 + 1)
                } else {
                    Ok(right)
                }
            },
        }
    }

    /// Parses the right operand of `+` or `-`, the cursor being behind the
    /// operator, and makes it a term of the sum: one more term of `left`, if
    /// `left` is the sum that the present run of operators built, and else
    /// the second term of a new sum.
    fn parse_sum_rhs(&mut self, left: Expr, run: Run, symbol: &String, level: i8) -> (r: Result<
        Expr,
        Error,
    >)
        requires
            old(self).wf(),
            run_after(symbol@) == Run::Sum,
        ensures
            final(self).continues(old(self)),
            r is Ok ==> old(self).pos < final(self).pos,
            match spec_operand(
                old(self).tokens(),
                old(self).ops@,
                level as int,
                old(self).pos as nat,
            ) {
                Ok((right, next)) => r matches Ok(e) && e@ == fold(left@, run, symbol@, right)
                    && final(self).pos == next,
                Err(failure) => r matches Err(e) && e@ == failure,
            },
        decreases old(self).toks.len() - old(self).pos, 2int, 0int,
    {
        match self.parse_operand(level) {
            Err(e) => Err(e),
            Ok(right) => {
                if is_symbol(symbol, '+') {
                    Ok(fold_sum(left, run, right))
                } else {
                    Ok(fold_sum(left, run, Expr::Neg(Box::new(right))))
                }
            },
        }
    }

    /// Parses the right operand of `*` or `/`, the cursor being behind the
    /// operator, and makes it a factor of the product: one more factor of
    /// `left`, if `left` is the product that the present run of operators
    /// built, and else the second factor of a new product.
    fn parse_product_rhs(&mut self, left: Expr, run: Run, symbol: &String, level: i8) -> (r:
        Result<Expr, Error>)
        requires
            old(self).wf(),
            run_after(symbol@) == Run::Prod,
        ensures
            final(self).continues(old(self)),
            r is Ok ==> old(self).pos < final(self).pos,
            match spec_operand(
                old(self).tokens(),
                old(self).ops@,
                level as int,
                old(self).pos as nat,
            ) {
                Ok((right, next)) => r matches Ok(e) && e@ == fold(left@, run, symbol@, right)
                    && final(self).pos == next,
                Err(failure) => r matches Err(e) && e@ == failure,
            },
        decreases old(self).toks.len() - old(self).pos, 2int, 0int,
    {
        match self.parse_operand(level) {
            Err(e) => Err(e),
            Ok(right) => {
                if is_symbol(symbol, '*') {
                    Ok(fold_product(left, run, right))
                } else {
                    Ok(fold_product(left, run, Expr::Recipr(Box::new(right))))
                }
            },
        }
    }

    /// Extends `first` by the operators that follow whose level is at least
    /// `floor`.
    fn parse_bin_op_rhs(&mut self, first: Expr, floor: i16) -> (r: Result<Expr, Error>)
        requires
            old(self).wf(),
        ensures
            final(self).continues(old(self)),
            agrees(
                r,
                final(self).pos,
                spec_climb(
                    old(self).tokens(),
                    old(self).ops@,
                    first@,
                    Run::Closed,
                    floor as int,
                    old(self).pos as nat,
                ),
            ),
            r is Ok ==> old(self).pos <= final(self).pos,
        decreases old(self).toks.len() - old(self).pos, 4int, 0int,
    {
        let toks = self.toks;
        let ghost goal = spec_climb(
            self.tokens(),
            self.ops@,
            first@,
            Run::Closed,
            floor as int,
            self.pos as nat,
        );
        let mut left = first;
        let mut run = Run::Closed;
        loop
            invariant
                self.continues(old(self)),
                toks == self.toks,
                old(self).pos <= self.pos,
                goal == spec_climb(
                    old(self).tokens(),
                    old(self).ops@,
                    first@,
                    Run::Closed,
                    floor as int,
                    old(self).pos as nat,
                ),
                goal == spec_climb(
                    self.tokens(),
                    self.ops@,
                    left@,
                    run,
                    floor as int,
                    self.pos as nat,
                ),
            decreases self.toks.len() - self.pos,
        {
            if self.pos >= toks.len() {
                return Ok(left);
            }
            let symbol = match &toks[self.pos] {
                Tok::Op(symbol) => symbol,
                _ => {
                    return Ok(left);
                },
            };
            let level = match self.ops.get(symbol) {
                Some(level) => level,
                None => {
                    return Err(
                        Error {
                            kind: ErrorKind::UnknownOperator(symbol.clone()),
                            position: self.pos,
                        },
                    );
                },
            };
            if (level as i16) < floor {
                return Ok(left);
            }
            self.pos = self.pos + 1;
            let family = next_run(symbol);
            let folded = match family {
                Run::Sum => self.parse_sum_rhs(left, run, symbol, level),
                Run::Prod => self.parse_product_rhs(left, run, symbol, level),
                Run::Closed => match self.parse_operand(level) {
                    Ok(right) => Ok(binary_node(left, symbol, right)),
                    Err(e) => Err(e),
                },
            };
            left = match folded {
                Ok(node) => node,
                Err(e) => {
                    return Err(e);
                },
            };
            run = family;
        }
    }

    /// Parses a primary: a keyword, a literal, a name, a parenthesised
    /// expression, or a sign in front of a primary.
    fn parse_primary(&mut self) -> (r: Result<Expr, Error>)
        requires
            old(self).wf(),
        ensures
            final(self).continues(old(self)),
            agrees(
                r,
                final(self).pos,
                spec_primary(old(self).tokens(), old(self).ops@, old(self).pos as nat),
            ),
            r is Ok ==> old(self).pos < final(self).pos,
        decreases old(self).toks.len() - old(self).pos, 0int, 1int,
    {
        let toks = self.toks;
        if self.pos >= toks.len() {
            return Err(Error { kind: ErrorKind::UnexpectedEndOfInput, position: self.pos });
        }
        let at = self.pos;
        match &toks[at] {
            Tok::Inf => {
                self.pos = at + 1;
                Ok(Expr::Const(Const::Inf))
            },
            Tok::Undef => {
                self.pos = at + 1;
                Ok(Expr::Const(Const::Undef))
            },
            Tok::Lit(c) => {
                self.pos = at + 1;
                Ok(Expr::Const(*c))
            },
            Tok::Op(symbol) => {
                self.pos = at + 1;
                match self.parse_primary() {
                    Err(e) => Err(e),
                    Ok(operand) => {
                        if is_symbol(symbol, '+') {
                            Ok(operand)
                        } else if is_symbol(symbol, '-') {
                            Ok(Expr::Neg(Box::new(operand)))
                        } else {
                            Err(
                                Error {
                                    kind: ErrorKind::UnknownOperator(symbol.clone()),
                                    position: at,
                                },
                            )
                        }
                    },
                }
            },
            Tok::LParen => self.parse_paren_expr(),
            Tok::Iden(name) => {
                self.pos = at + 1;
                Ok(Expr::Var(name.clone()))
            },
            Tok::RParen => Err(Error { kind: ErrorKind::UnexpectedToken, position: at }),
        }
    }
}

/// Parses `toks` as one expression, with the operators of `ops`.
///
/// Succeeds if and only if the whole of `toks` is one expression of the
/// grammar, and then returns its tree. Otherwise the error is the first one
/// met from left to right.
pub fn parse(toks: Vec<Tok>, ops: OperatorTable) -> (r: Result<Expr, Error>)
    ensures
        match spec_parse(tok_views(toks@), ops@) {
            Ok(expr) => r matches Ok(e) && e@ == expr,
            Err(failure) => r matches Err(e) && e@ == failure,
        },
{
    let mut parser = Parser { toks: &toks, ops: &ops, pos: 0 };
    match parser.parse_expr() {
        Ok(ast) => if !parser.is_done() {
            Err(Error { kind: ErrorKind::TrailingTokens, position: parser.pos })
        } else {
            Ok(ast)
        },
        Err(err) => Err(err),
    }
}

} // verus!
