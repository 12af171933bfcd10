//! What a line of text means as tokens: the lexical grammar as mathematical
//! functions on character sequences.

use crate::expr::ConstView;
use crate::lexer::TokView;
use vstd::prelude::*;

verus! {

/// What `char::is_whitespace` returns for `c`.
pub uninterp spec fn char_is_whitespace(c: char) -> bool;

/// What `char::is_alphabetic` returns for `c`.
pub uninterp spec fn char_is_alphabetic(c: char) -> bool;

/// What `char::is_alphanumeric` returns for `c`.
pub uninterp spec fn char_is_alphanumeric(c: char) -> bool;

/// How the caller reads a float literal, as a mathematical function from
/// its text to the bits of the double.
pub type FloatRead = spec_fn(Seq<char>) -> u64;

/// A lexical failure: the index of the first character of the token that
/// failed, and why.
pub struct LexErrorView {
    pub position: nat,
    pub message: Seq<char>,
}

/// The message for a numeric literal that holds two points, or a point and
/// no digit.
pub open spec fn invalid_literal() -> Seq<char> {
    "Invalid numeric literal"@
}

/// The message for an integer literal above the largest integer of the tower.
pub open spec fn literal_too_large() -> Seq<char> {
    "Numeric literal too large"@
}

/// Tokens, or a failure.
pub type Lexed = Result<Seq<TokView>, LexErrorView>;

/// A decimal digit.
pub open spec fn is_digit(c: char) -> bool {
    '0' <= c <= '9'
}

/// A character of a numeric literal: a digit or the point.
pub open spec fn is_literal_char(c: char) -> bool {
    is_digit(c) || c == '.'
}

/// A character that goes on an operator symbol: none of those that start or
/// go on another token, and no whitespace.
pub open spec fn is_operator_char(c: char) -> bool {
    &&& !char_is_alphanumeric(c)
    &&& !is_literal_char(c)
    &&& !char_is_whitespace(c)
    &&& c != '('
    &&& c != ')'
}

/// The kinds of character runs that make up tokens.
#[derive(Clone, Copy, PartialEq, Eq, Structural, Debug)]
pub enum Class {
    Literal,
    Word,
    Operator,
}

impl Class {
    /// The characters that go on a run of this kind.
    pub open spec fn holds(self, c: char) -> bool {
        match self {
            Class::Literal => is_literal_char(c),
            Class::Word => char_is_alphanumeric(c),
            Class::Operator => is_operator_char(c),
        }
    }
}

/// The number of characters from `from` on that go on a run of kind `class`.
pub open spec fn run_len(text: Seq<char>, from: nat, class: Class) -> nat
    decreases text.len() - from,
{
    if from < text.len() && class.holds(text[from as int]) {
        1 + run_len(text, from + 1, class)
    } else {
        0
    }
}

/// The number of points in `s`.
pub open spec fn points(s: Seq<char>) -> nat
    decreases s.len(),
{
    if s.len() == 0 {
        0
    } else {
        points(s.drop_last()) + if s.last() == '.' {
            1nat
        } else {
            0nat
        }
    }
}

/// The number that a sequence of digits denotes.
pub open spec fn digits_value(s: Seq<char>) -> nat
    decreases s.len(),
{
    if s.len() == 0 {
        0
    } else {
        digits_value(s.drop_last()) * 10 + (s.last() as u32 - '0' as u32) as nat
    }
}

/// The token of a numeric literal with the text `s`, which starts at `at`.
/// Without a point it is an integer, with one point a float.
pub open spec fn literal_token(s: Seq<char>, at: nat, fr: FloatRead) -> Result<
    TokView,
    LexErrorView,
> {
    if points(s) > 1 || s == seq!['.'] {
        Err(LexErrorView { position: at, message: invalid_literal() })
    } else if points(s) == 1 {
        Ok(TokView::Lit(ConstView::Float(fr(s))))
    } else if digits_value(s) > i128::MAX {
        Err(LexErrorView { position: at, message: literal_too_large() })
    } else {
        Ok(TokView::Lit(ConstView::Int(digits_value(s) as int)))
    }
}

/// The token of a word: a keyword or a name.
pub open spec fn word_token(s: Seq<char>) -> TokView {
    if s == seq!['i', 'n', 'f'] {
        TokView::Inf
    } else if s == seq!['u', 'n', 'd', 'e', 'f'] {
        TokView::Undef
    } else {
        TokView::Iden(s)
    }
}

/// The tokens of `text` from `pos` on, after the tokens `done`.
///
/// A parenthesis is a token. A digit or a point starts a numeric literal,
/// which goes on while digits and points follow. Whitespace separates. An
/// alphabetic character starts a word, which goes on while alphanumeric
/// characters follow. Any other character starts an operator symbol, which
/// goes on while operator characters follow.
pub open spec fn tokens_from(text: Seq<char>, pos: nat, done: Seq<TokView>, fr: FloatRead) -> Lexed
    decreases
            if pos < text.len() {
                text.len() - pos
            } else {
                0
            },
{
    if pos >= text.len() {
        Ok(done)
    } else {
        let c = text[pos as int];
        if c == '(' {
            tokens_from(text, pos + 1, done.push(TokView::LParen), fr)
        } else if c == ')' {
            tokens_from(text, pos + 1, done.push(TokView::RParen), fr)
        } else if is_literal_char(c) {
            let end = (pos + 1 + run_len(text, pos + 1, Class::Literal)) as nat;
            match literal_token(text.subrange(pos as int, end as int), pos, fr) {
                Ok(tok) => tokens_from(text, end, done.push(tok), fr),
                Err(e) => Err(e),
            }
        } else if char_is_whitespace(c) {
            tokens_from(text, pos + 1, done, fr)
        } else if char_is_alphabetic(c) {
            let end = (pos + 1 + run_len(text, pos + 1, Class::Word)) as nat;
            tokens_from(
                text,
                end,
                done.push(word_token(text.subrange(pos as int, end as int))),
                fr,
            )
        } else {
            let end = (pos + 1 + run_len(text, pos + 1, Class::Operator)) as nat;
            tokens_from(
                text,
                end,
                done.push(TokView::Op(text.subrange(pos as int, end as int))),
                fr,
            )
        }
    }
}

/// The tokens of `text`.
pub open spec fn spec_lex(text: Seq<char>, fr: FloatRead) -> Lexed {
    tokens_from(text, 0, Seq::empty(), fr)
}

/// A run ends within the text.
pub proof fn lemma_run_within(text: Seq<char>, from: nat, class: Class)
    requires
        from <= text.len(),
    ensures
        from + run_len(text, from, class) <= text.len(),
    decreases text.len() - from,
{
    if from < text.len() && class.holds(text[from as int]) {
        lemma_run_within(text, from + 1, class);
    }
}

/// The text holds no point, and so no float literal.
pub open spec fn no_point(text: Seq<char>) -> bool {
    forall|i: int| 0 <= i < text.len() ==> text[i] != '.'
}

/// A part of a text without a point holds no point.
pub proof fn lemma_no_point(text: Seq<char>, from: int, to: int)
    requires
        no_point(text),
        0 <= from <= to <= text.len(),
    ensures
        points(text.subrange(from, to)) == 0,
    decreases to - from,
{
    if from < to {
        assert(text.subrange(from, to).drop_last() =~= text.subrange(from, to - 1));
        assert(text.subrange(from, to).last() == text[to - 1]);
        lemma_no_point(text, from, to - 1);
    }
}

/// A token that, if it is a literal, holds a float or an integer that is
/// not negative.
pub open spec fn is_plain(tok: TokView) -> bool {
    tok matches TokView::Lit(c) ==> c is Float || (c matches ConstView::Int(i) && 0 <= i
        <= i128::MAX)
}

/// The literals of a text are floats and integers that are not negative:
/// no text is a fraction, an infinity or the undefined value.
pub proof fn lemma_literals_are_plain(text: Seq<char>, pos: nat, done: Seq<TokView>, fr: FloatRead)
    requires
        forall|i: int| 0 <= i < done.len() ==> is_plain(#[trigger] done[i]),
    ensures
        tokens_from(text, pos, done, fr) matches Ok(toks) ==> forall|i: int|
            0 <= i < toks.len() ==> is_plain(#[trigger] toks[i]),
    decreases
            if pos < text.len() {
                text.len() - pos
            } else {
                0
            },
{
    if pos < text.len() {
        let c = text[pos as int];
        if c == '(' {
            lemma_literals_are_plain(text, pos + 1, done.push(TokView::LParen), fr);
        } else if c == ')' {
            lemma_literals_are_plain(text, pos + 1, done.push(TokView::RParen), fr);
        } else if is_literal_char(c) {
            let end = (pos + 1 + run_len(text, pos + 1, Class::Literal)) as nat;
            if let Ok(tok) = literal_token(text.subrange(pos as int, end as int), pos, fr) {
                lemma_literals_are_plain(text, end, done.push(tok), fr);
            }
        } else if char_is_whitespace(c) {
            lemma_literals_are_plain(text, pos + 1, done, fr);
        } else if char_is_alphabetic(c) {
            let end = (pos + 1 + run_len(text, pos + 1, Class::Word)) as nat;
            lemma_literals_are_plain(
                text,
                end,
                done.push(word_token(text.subrange(pos as int, end as int))),
                fr,
            );
        } else {
            let end = (pos + 1 + run_len(text, pos + 1, Class::Operator)) as nat;
            lemma_literals_are_plain(
                text,
                end,
                done.push(TokView::Op(text.subrange(pos as int, end as int))),
                fr,
            );
        }
    }
}

} // verus!
