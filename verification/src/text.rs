//! The canonical text of values and expressions: prefix form in
//! parentheses, as in `(+ 1 (* 2 x))`.

use crate::expr::{Const, ConstView, Expr, ExprView, Func, FuncView};
use crate::rat::{Rat, Ratio};
use crate::scan::{digits_value, is_digit};
use vstd::prelude::*;
use vstd::string::StringExecFns;

verus! {

/// How the caller writes a float, as a mathematical function of its bits.
pub type FloatText = spec_fn(u64) -> Seq<char>;

/// The writer accepts every float.
pub open spec fn writes_all<G: Fn(u64) -> String>(write_float: &G) -> bool {
    forall|bits: u64| write_float.requires((bits,))
}

/// The writer returns the text `ft(bits)` for every float, and nothing else.
pub open spec fn writes<G: Fn(u64) -> String>(write_float: &G, ft: FloatText) -> bool {
    forall|bits: u64, s: String| write_float.ensures((bits,), s) ==> s@ == ft(bits)
}

/// `ft` says what the writer returns wherever the writer is asked: nowhere,
/// if there is no float to write, and everywhere otherwise.
pub open spec fn text_stands_for<G: Fn(u64) -> String>(
    ft: FloatText,
    write_float: &G,
    no_float: bool,
) -> bool {
    no_float || writes(write_float, ft)
}

/// The character of a decimal digit.
pub open spec fn digit(d: int) -> char {
    if d == 0 {
        '0'
    } else if d == 1 {
        '1'
    } else if d == 2 {
        '2'
    } else if d == 3 {
        '3'
    } else if d == 4 {
        '4'
    } else if d == 5 {
        '5'
    } else if d == 6 {
        '6'
    } else if d == 7 {
        '7'
    } else if d == 8 {
        '8'
    } else {
        '9'
    }
}

/// The decimal digits of a natural number, without leading zeros.
pub open spec fn decimal_nat(n: nat) -> Seq<char>
    decreases n,
{
    if n < 10 {
        seq![digit(n as int)]
    } else {
        decimal_nat(n / 10).push(digit((n % 10) as int))
    }
}

/// An integer in decimal, with `-` in front if it is negative.
pub open spec fn decimal(i: int) -> Seq<char> {
    if i < 0 {
        seq!['-'] + decimal_nat((-i) as nat)
    } else {
        decimal_nat(i as nat)
    }
}

/// The text of a fraction: numerator, `/` and denominator.
pub open spec fn ratio_text(r: Ratio) -> Seq<char> {
    decimal(r.num) + seq!['/'] + decimal(r.den)
}

/// The text of a value: an integer in decimal, a fraction as numerator,
/// `/` and denominator, a float as the writer writes it, and `inf`, `-inf`
/// and `undef`.
pub open spec fn const_text(c: ConstView, ft: FloatText) -> Seq<char> {
    match c {
        ConstView::Int(i) => decimal(i),
        ConstView::Float(bits) => ft(bits),
        ConstView::Rat(r) => ratio_text(r),
        ConstView::Inf => seq!['i', 'n', 'f'],
        ConstView::NegInf => seq!['-', 'i', 'n', 'f'],
        ConstView::Undef => seq!['u', 'n', 'd', 'e', 'f'],
    }
}

/// The name of a function.
pub open spec fn func_text(f: FuncView) -> Seq<char> {
    match f {
        FuncView::Sin => seq!['S', 'i', 'n'],
        FuncView::Cos => seq!['C', 'o', 's'],
        FuncView::Tan => seq!['T', 'a', 'n'],
        FuncView::ASin => seq!['A', 'S', 'i', 'n'],
        FuncView::ACos => seq!['A', 'C', 'o', 's'],
        FuncView::ATan => seq!['A', 'T', 'a', 'n'],
        FuncView::Log => seq!['L', 'o', 'g'],
        FuncView::Sqrt => seq!['S', 'q', 'r', 't'],
        FuncView::Cbrt => seq!['C', 'b', 'r', 't'],
        FuncView::Root => seq!['R', 'o', 'o', 't'],
        FuncView::Func(name) => name,
    }
}

/// `head`, a space, the texts of `children` with spaces between them, all
/// in parentheses.
pub open spec fn form(head: Seq<char>, children: Seq<ExprView>, ft: FloatText) -> Seq<char>
    decreases children, 1nat,
{
    seq!['('] + head + seq![' '] + joined(children, seq![' '], ft) + seq![')']
}

/// The texts of `children` in order, with `sep` between each two.
pub open spec fn joined(children: Seq<ExprView>, sep: Seq<char>, ft: FloatText) -> Seq<char>
    decreases children, 0nat,
{
    if children.len() == 0 {
        Seq::empty()
    } else if children.len() == 1 {
        expr_text(children[0], ft)
    } else {
        joined(children.drop_last(), sep, ft) + sep + expr_text(children.last(), ft)
    }
}

/// The text of an expression.
pub open spec fn expr_text(expr: ExprView, ft: FloatText) -> Seq<char>
    decreases expr, 2nat,
{
    match expr {
        ExprView::Sum(children) => form(seq!['+'], children, ft),
        ExprView::Prod(children) => form(seq!['*'], children, ft),
        ExprView::Pow(base, exponent) => seq!['(', '^', ' '] + expr_text(*base, ft) + seq![' ']
            + expr_text(*exponent, ft) + seq![')'],
        ExprView::Neg(inner) => seq!['(', '-', ' '] + expr_text(*inner, ft) + seq![')'],
        ExprView::Recipr(inner) => seq!['(', '/', ' ', '1', ' '] + expr_text(*inner, ft) + seq![
            ')',
        ],
        ExprView::Call(f, arguments) => form(func_text(f), arguments, ft),
        ExprView::Const(c) => const_text(c, ft),
        ExprView::Var(name) => name,
    }
}

/// No constant of the tree is a float.
pub open spec fn no_float(expr: ExprView) -> bool
    decreases expr,
{
    match expr {
        ExprView::Sum(children) => no_floats(children),
        ExprView::Prod(children) => no_floats(children),
        ExprView::Pow(base, exponent) => no_float(*base) && no_float(*exponent),
        ExprView::Neg(inner) => no_float(*inner),
        ExprView::Recipr(inner) => no_float(*inner),
        ExprView::Call(_, arguments) => no_floats(arguments),
        ExprView::Const(c) => !(c is Float),
        ExprView::Var(_) => true,
    }
}

/// No constant of the trees is a float.
pub open spec fn no_floats(children: Seq<ExprView>) -> bool
    decreases children,
{
    forall|i: int| 0 <= i < children.len() ==> no_float(#[trigger] children[i])
}

/// What is written is read back: the digits of a natural number denote it.
pub proof fn lemma_decimal_denotes(n: nat)
    ensures
        digits_value(decimal_nat(n)) == n,
        decimal_nat(n).len() > 0,
        forall|i: int| 0 <= i < decimal_nat(n).len() ==> is_digit(#[trigger] decimal_nat(n)[i]),
    decreases n,
{
    if n < 10 {
        let s = seq![digit(n as int)];
        assert(s.drop_last() =~= Seq::<char>::empty());
        assert(digits_value(s.drop_last()) == 0);
        assert(s.last() == digit(n as int));
    } else {
        lemma_decimal_denotes(n / 10);
        let s = decimal_nat(n);
        assert(s.drop_last() =~= decimal_nat(n / 10));
        assert(s.last() == digit((n % 10) as int));
    }
}

/// The character of the decimal digit `d`.
fn digit_char(d: u8) -> (c: char)
    requires
        d < 10,
    ensures
        c == digit(d as int),
{
    if d == 0 {
        '0'
    } else if d == 1 {
        '1'
    } else if d == 2 {
        '2'
    } else if d == 3 {
        '3'
    } else if d == 4 {
        '4'
    } else if d == 5 {
        '5'
    } else if d == 6 {
        '6'
    } else if d == 7 {
        '7'
    } else if d == 8 {
        '8'
    } else {
        '9'
    }
}

/// The digits of `s` in reverse order.
spec fn backwards(s: Seq<char>) -> Seq<char> {
    Seq::new(s.len(), |i: int| s[s.len() - 1 - i])
}

/// `String::push`. Believed, not proved: the string afterwards is the
/// string before with the character at its end.
#[verifier::external_body]
pub(crate) fn push_char(s: &mut String, c: char)
    ensures
        final(s)@ == old(s)@.push(c),
{
    s.push(c)
}

/// An integer in decimal.
pub fn int_to_string(i: i128) -> (s: String)
    ensures
        s@ == decimal(i as int),
{
    // the digits from the last to the second, then the first
    let mut rest: u128 = if i >= 0 {
        i as u128
    } else {
        (-(i + 1)) as u128 + 1
    };
    let ghost whole = rest as nat;
    let mut low: Vec<char> = Vec::new();
    assert(decimal_nat(whole) =~= decimal_nat(rest as nat) + backwards(low@));
    while rest >= 10
        invariant
            decimal_nat(whole) == decimal_nat(rest as nat) + backwards(low@),
        decreases rest,
    {
        let ghost before = low@;
        let ghost more = rest as nat;
        low.push(digit_char((rest % 10) as u8));
        rest = rest / 10;
        assert(backwards(low@) =~= seq![digit((more % 10) as int)] + backwards(before));
        assert(decimal_nat(more) == decimal_nat(rest as nat).push(digit((more % 10) as int)));
        assert(decimal_nat(whole) =~= decimal_nat(rest as nat) + backwards(low@));
    }
    let mut s = String::new();
    if i < 0 {
        push_char(&mut s, '-');
    }
    push_char(&mut s, digit_char(rest as u8));
    let ghost head = s@;
    let mut k: usize = low.len();
    assert(backwards(low@).take(0) =~= Seq::<char>::empty());
    while k > 0
        invariant
            k <= low.len(),
            s@ == head + backwards(low@).take(low.len() - k),
        decreases k,
    {
        k = k - 1;
        push_char(&mut s, low[k]);
        assert(backwards(low@).take(low.len() - k) =~= backwards(low@).take(
            low.len() - k - 1,
        ).push(low@[k as int]));
    }
    assert(backwards(low@).take(low.len() as int) =~= backwards(low@));
    assert(s@ =~= decimal(i as int));
    s
}

impl Rat {
    /// The text of the fraction.
    pub fn to_text(&self) -> (s: String)
        ensures
            s@ == ratio_text(self@),
    {
        let mut s = int_to_string(self.num());
        s.append("/");
        let d = int_to_string(self.den());
        s.append(d.as_str());
        proof {
            reveal_strlit("/");
            assert("/"@ =~= seq!['/']);
        }
        s
    }
}

impl Const {
    /// The text of the value. `write_float` writes a float.
    pub fn to_text<G: Fn(u64) -> String>(&self, write_float: &G) -> (s: String)
        requires
            writes_all(write_float),
        ensures
            forall|ft: FloatText|
                text_stands_for(ft, write_float, !(self is Float)) ==> s@ == #[trigger] const_text(
                    self@,
                    ft,
                ),
    {
        match *self {
            Const::Int(i) => int_to_string(i),
            Const::Float(bits) => write_float(bits),
            Const::Rat(r) => r.to_text(),
            Const::Inf => {
                proof {
                    reveal_strlit("inf");
                    assert("inf"@ =~= seq!['i', 'n', 'f']);
                }
                String::from_str("inf")
            },
            Const::NegInf => {
                proof {
                    reveal_strlit("-inf");
                    assert("-inf"@ =~= seq!['-', 'i', 'n', 'f']);
                }
                String::from_str("-inf")
            },
            Const::Undef => {
                proof {
                    reveal_strlit("undef");
                    assert("undef"@ =~= seq!['u', 'n', 'd', 'e', 'f']);
                }
                String::from_str("undef")
            },
        }
    }
}

impl Func {
    /// The name of the function.
    pub fn to_text(&self) -> (s: String)
        ensures
            s@ == func_text(self@),
    {
        proof {
            reveal_strlit("Sin");
            reveal_strlit("Cos");
            reveal_strlit("Tan");
            reveal_strlit("ASin");
            reveal_strlit("ACos");
            reveal_strlit("ATan");
            reveal_strlit("Log");
            reveal_strlit("Sqrt");
            reveal_strlit("Cbrt");
            reveal_strlit("Root");
            assert("Sin"@ =~= seq!['S', 'i', 'n']);
            assert("Cos"@ =~= seq!['C', 'o', 's']);
            assert("Tan"@ =~= seq!['T', 'a', 'n']);
            assert("ASin"@ =~= seq!['A', 'S', 'i', 'n']);
            assert("ACos"@ =~= seq!['A', 'C', 'o', 's']);
            assert("ATan"@ =~= seq!['A', 'T', 'a', 'n']);
            assert("Log"@ =~= seq!['L', 'o', 'g']);
            assert("Sqrt"@ =~= seq!['S', 'q', 'r', 't']);
            assert("Cbrt"@ =~= seq!['C', 'b', 'r', 't']);
            assert("Root"@ =~= seq!['R', 'o', 'o', 't']);
        }
        match self {
            Func::Sin => String::from_str("Sin"),
            Func::Cos => String::from_str("Cos"),
            Func::Tan => String::from_str("Tan"),
            Func::ASin => String::from_str("ASin"),
            Func::ACos => String::from_str("ACos"),
            Func::ATan => String::from_str("ATan"),
            Func::Log => String::from_str("Log"),
            Func::Sqrt => String::from_str("Sqrt"),
            Func::Cbrt => String::from_str("Cbrt"),
            Func::Root => String::from_str("Root"),
            Func::Func(name) => name.clone(),
        }
    }
}

/// The texts of `children` in order, with `sep` between each two.
pub fn print_sep_vec<G: Fn(u64) -> String>(
    children: &Vec<Box<Expr>>,
    sep: &str,
    write_float: &G,
) -> (s: String)
    requires
        writes_all(write_float),
    ensures
        forall|ft: FloatText|
            text_stands_for(ft, write_float, no_floats(Expr::models(children))) ==> s@
                == #[trigger] joined(Expr::models(children), sep@, ft),
    decreases children, 0nat,
{
    let ghost all = Expr::models(children);
    let ghost exact = no_floats(all);
    let mut s = String::new();
    if children.len() == 0 {
        return s;
    }
    let first = (*children[0]).to_text(write_float);
    s.append(first.as_str());
    let mut i: usize = 1;
    proof {
        assert(all.take(1) =~= seq![all[0]]);
        assert(all[0] == (*children[0])@);
        assert(exact ==> no_float(all[0]));
        assert forall|ft: FloatText| text_stands_for(ft, write_float, exact) implies s@
            == #[trigger] joined(all.take(1), sep@, ft) by {
            assert(first@ == expr_text(all[0], ft));
            assert(s@ =~= first@);
        }
    }
    while i < children.len()
        invariant
            1 <= i <= children.len(),
            writes_all(write_float),
            all == Expr::models(children),
            exact == no_floats(all),
            forall|ft: FloatText|
                text_stands_for(ft, write_float, exact) ==> s@ == #[trigger] joined(
                    all.take(i as int),
                    sep@,
                    ft,
                ),
        decreases children.len() - i,
    {
        let ghost before = s@;
        let next = (*children[i]).to_text(write_float);
        s.append(sep);
        s.append(next.as_str());
        proof {
            assert(all.take(i + 1).drop_last() =~= all.take(i as int));
            assert(all.take(i + 1).last() == all[i as int]);
            assert(all[i as int] == (*children[i as int])@);
            assert(exact ==> no_float(all[i as int]));
            assert forall|ft: FloatText| text_stands_for(ft, write_float, exact) implies s@
                == #[trigger] joined(all.take(i + 1), sep@, ft) by {
                assert(before == joined(all.take(i as int), sep@, ft));
                assert(next@ == expr_text(all[i as int], ft));
            }
        }
        i += 1;
    }
    proof {
        assert(all.take(i as int) =~= all);
    }
    s
}

/// `head`, a space, the texts of `children` with spaces between them, all
/// in parentheses.
fn form_text<G: Fn(u64) -> String>(head: &str, children: &Vec<Box<Expr>>, write_float: &G) -> (s:
    String)
    requires
        writes_all(write_float),
    ensures
        forall|ft: FloatText|
            text_stands_for(ft, write_float, no_floats(Expr::models(children))) ==> s@
                == #[trigger] form(head@, Expr::models(children), ft),
    decreases children, 1nat,
{
    let mut s = String::from_str("(");
    s.append(head);
    s.append(" ");
    let inner = print_sep_vec(children, " ", write_float);
    s.append(inner.as_str());
    s.append(")");
    proof {
        reveal_strlit("(");
        reveal_strlit(" ");
        reveal_strlit(")");
        assert("("@ =~= seq!['(']);
        assert(" "@ =~= seq![' ']);
        assert(")"@ =~= seq![')']);
        assert forall|ft: FloatText|
            text_stands_for(
                ft,
                write_float,
                no_floats(Expr::models(children)),
            ) implies s@ == #[trigger] form(head@, Expr::models(children), ft) by {
            assert(inner@ == joined(Expr::models(children), seq![' '], ft));
        }
    }
    s
}

impl Expr {
    /// The text of the expression. `write_float` writes a float.
    pub fn to_text<G: Fn(u64) -> String>(&self, write_float: &G) -> (s: String)
        requires
            writes_all(write_float),
        ensures
            forall|ft: FloatText|
                text_stands_for(ft, write_float, no_float(self@)) ==> s@ == #[trigger] expr_text(
                    self@,
                    ft,
                ),
        decreases self, 2nat,
    {
        match self {
            Expr::Sum(children) => {
                proof {
                    reveal_strlit("+");
                    assert("+"@ =~= seq!['+']);
                }
                let s = form_text("+", children, write_float);
                proof {
                    assert forall|ft: FloatText|
                        text_stands_for(ft, write_float, no_float(self@)) implies s@
                        == #[trigger] expr_text(self@, ft) by {
                        assert(s@ == form("+"@, Expr::models(children), ft));
                    }
                }
                s
            },
            Expr::Prod(children) => {
                proof {
                    reveal_strlit("*");
                    assert("*"@ =~= seq!['*']);
                }
                let s = form_text("*", children, write_float);
                proof {
                    assert forall|ft: FloatText|
                        text_stands_for(ft, write_float, no_float(self@)) implies s@
                        == #[trigger] expr_text(self@, ft) by {
                        assert(s@ == form("*"@, Expr::models(children), ft));
                    }
                }
                s
            },
            Expr::Pow(base, exponent) => {
                let mut s = String::from_str("(^ ");
                let b = (**base).to_text(write_float);
                s.append(b.as_str());
                s.append(" ");
                let e = (**exponent).to_text(write_float);
                s.append(e.as_str());
                s.append(")");
                proof {
                    reveal_strlit("(^ ");
                    reveal_strlit(" ");
                    reveal_strlit(")");
                    assert("(^ "@ =~= seq!['(', '^', ' ']);
                    assert(" "@ =~= seq![' ']);
                    assert(")"@ =~= seq![')']);
                    assert forall|ft: FloatText|
                        text_stands_for(ft, write_float, no_float(self@)) implies s@
                        == #[trigger] expr_text(self@, ft) by {
                        assert(b@ == expr_text(base@, ft));
                        assert(e@ == expr_text(exponent@, ft));
                    }
                }
                s
            },
            Expr::Neg(inner) => {
                let mut s = String::from_str("(- ");
                let i = (**inner).to_text(write_float);
                s.append(i.as_str());
                s.append(")");
                proof {
                    reveal_strlit("(- ");
                    reveal_strlit(")");
                    assert("(- "@ =~= seq!['(', '-', ' ']);
                    assert(")"@ =~= seq![')']);
                    assert forall|ft: FloatText|
                        text_stands_for(ft, write_float, no_float(self@)) implies s@
                        == #[trigger] expr_text(self@, ft) by {
                        assert(i@ == expr_text(inner@, ft));
                    }
                }
                s
            },
            Expr::Recipr(inner) => {
                let mut s = String::from_str("(/ 1 ");
                let i = (**inner).to_text(write_float);
                s.append(i.as_str());
                s.append(")");
                proof {
                    reveal_strlit("(/ 1 ");
                    reveal_strlit(")");
                    assert("(/ 1 "@ =~= seq!['(', '/', ' ', '1', ' ']);
                    assert(")"@ =~= seq![')']);
                    assert forall|ft: FloatText|
                        text_stands_for(ft, write_float, no_float(self@)) implies s@
                        == #[trigger] expr_text(self@, ft) by {
                        assert(i@ == expr_text(inner@, ft));
                    }
                }
                s
            },
            Expr::Call(f, arguments) => {
                let head = f.to_text();
                let s = form_text(head.as_str(), arguments, write_float);
                proof {
                    assert forall|ft: FloatText|
                        text_stands_for(ft, write_float, no_float(self@)) implies s@
                        == #[trigger] expr_text(self@, ft) by {
                        assert(s@ == form(head@, Expr::models(arguments), ft));
                    }
                }
                s
            },
            Expr::Const(c) => c.to_text(write_float),
            Expr::Var(name) => name.clone(),
        }
    }
}

} // verus!
