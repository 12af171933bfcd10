//! Tokens, and the lexer that reads them from a line of text.

use crate::expr::{Const, ConstView};
use crate::text::push_char;
use crate::scan::{
    char_is_alphabetic, char_is_alphanumeric, char_is_whitespace, digits_value, is_digit,
    is_literal_char, lemma_no_point, lemma_run_within, literal_token, no_point, points, run_len,
    spec_lex, tokens_from, word_token, Class, FloatRead, LexErrorView, Lexed,
};
use vstd::prelude::*;
use vstd::string::StringExecFns;

verus! {

/// One token of an expression.
#[derive(Debug, PartialEq)]
pub enum Tok {
    /// A name.
    Iden(String),
    /// An operator symbol.
    Op(String),
    /// A numeric literal.
    Lit(Const),
    LParen,
    RParen,
    /// The keyword `inf`.
    Inf,
    /// The keyword `undef`.
    Undef,
}

/// The mathematical value of a [`Tok`].
pub enum TokView {
    Iden(Seq<char>),
    Op(Seq<char>),
    Lit(ConstView),
    LParen,
    RParen,
    Inf,
    Undef,
}

impl View for Tok {
    type V = TokView;

    open spec fn view(&self) -> TokView {
        match self {
            Tok::Iden(name) => TokView::Iden(name@),
            Tok::Op(symbol) => TokView::Op(symbol@),
            Tok::Lit(c) => TokView::Lit(c@),
            Tok::LParen => TokView::LParen,
            Tok::RParen => TokView::RParen,
            Tok::Inf => TokView::Inf,
            Tok::Undef => TokView::Undef,
        }
    }
}

/// A token sequence as mathematical values.
pub open spec fn tok_views(toks: Seq<Tok>) -> Seq<TokView> {
    Seq::new(toks.len(), |i: int| toks[i]@)
}

broadcast use vstd::string::group_string_axioms;

/// A lexical failure: the index of the first character of the token that
/// failed, and why.
#[derive(Debug, PartialEq)]
pub struct Error {
    pub position: usize,
    pub message: String,
}

impl View for Error {
    type V = LexErrorView;

    open spec fn view(&self) -> LexErrorView {
        LexErrorView { position: self.position as nat, message: self.message@ }
    }
}

/// The reader accepts every text.
pub open spec fn reads_all<P: Fn(String) -> u64>(read_float: &P) -> bool {
    forall|s: String| read_float.requires((s,))
}

/// The reader returns `fr` of the text for every text, and nothing else.
pub open spec fn reads<P: Fn(String) -> u64>(read_float: &P, fr: FloatRead) -> bool {
    forall|s: String, bits: u64| read_float.ensures((s,), bits) ==> bits == fr(s@)
}

/// `fr` says what the reader returns wherever the reader is asked: nowhere,
/// if there is no float literal to read, and everywhere otherwise.
pub open spec fn read_stands_for<P: Fn(String) -> u64>(
    fr: FloatRead,
    read_float: &P,
    no_float: bool,
) -> bool {
    no_float || reads(read_float, fr)
}

/// `char::is_whitespace`: whether the character has the Unicode property
/// `White_Space`. Believed, not proved: the result depends on the character
/// alone, and is what `char_is_whitespace` names.
#[verifier::external_body]
fn is_whitespace(c: char) -> (b: bool)
    ensures
        b == char_is_whitespace(c),
{
    c.is_whitespace()
}

/// `char::is_alphabetic`: whether the character has the Unicode property
/// `Alphabetic`. Believed, not proved: the result depends on the character
/// alone, and is what `char_is_alphabetic` names.
#[verifier::external_body]
fn is_alphabetic(c: char) -> (b: bool)
    ensures
        b == char_is_alphabetic(c),
{
    c.is_alphabetic()
}

/// `char::is_alphanumeric`: whether the character is alphabetic or numeric
/// in Unicode. Believed, not proved: the result depends on the character
/// alone, and is what `char_is_alphanumeric` names.
#[verifier::external_body]
fn is_alphanumeric(c: char) -> (b: bool)
    ensures
        b == char_is_alphanumeric(c),
{
    c.is_alphanumeric()
}

/// Whether `c` is a decimal digit.
fn is_decimal_digit(c: char) -> (b: bool)
    ensures
        b == is_digit(c),
{
    '0' <= c && c <= '9'
}

/// Whether `c` goes on a run of kind `class`.
fn goes_on(class: Class, c: char) -> (b: bool)
    ensures
        b == class.holds(c),
{
    match class {
        Class::Literal => is_decimal_digit(c) || c == '.',
        Class::Word => is_alphanumeric(c),
        Class::Operator => !is_alphanumeric(c) && !(is_decimal_digit(c) || c == '.')
            && !is_whitespace(c) && c != '(' && c != ')',
    }
}

/// The characters of `text`.
fn chars_of(text: &str) -> (chars: Vec<char>)
    ensures
        chars@ == text@,
{
    let mut chars: Vec<char> = Vec::new();
    for c in it: text.chars()
        invariant
            it.seq() == text@,
            chars@ == it.seq().take(it.index() as int),
    {
        chars.push(c);
    }
    assert(chars@ =~= text@);
    chars
}

/// A read cursor over the characters of a text.
pub struct Lexer {
    chars: Vec<char>,
    index: usize,
}

impl View for Lexer {
    type V = Seq<char>;

    /// The whole text.
    closed spec fn view(&self) -> Seq<char> {
        self.chars@
    }
}

impl Lexer {
    /// The index of the next character.
    pub closed spec fn position(&self) -> nat {
        self.index as nat
    }

    /// The cursor is within the text or at its end.
    pub closed spec fn wf(&self) -> bool {
        self.index <= self.chars.len()
    }

    /// A lexer at the start of `text`.
    pub fn new(text: &str) -> (lexer: Lexer)
        ensures
            lexer@ == text@,
            lexer.position() == 0,
            lexer.wf(),
    {
        Lexer { chars: chars_of(text), index: 0 }
    }

    /// Moves over the run of kind `class` at the cursor and appends it to `s`.
    fn take_run(&mut self, class: Class, s: &mut String)
        requires
            old(self).wf(),
        ensures
            final(self).chars == old(self).chars,
            final(self).wf(),
            final(self).index == old(self).index + run_len(
                old(self).chars@,
                old(self).index as nat,
                class,
            ),
            final(s)@ == old(s)@ + old(self).chars@.subrange(
                old(self).index as int,
                final(self).index as int,
            ),
            forall|k: int|
                old(self).index <= k < final(self).index ==> class.holds(
                    #[trigger] old(self).chars@[k],
                ),
    {
        let ghost start = self.index as int;
        let ghost text = self.chars@;
        assert(s@ =~= old(s)@ + text.subrange(start, start));
        while self.index < self.chars.len() && goes_on(class, self.chars[self.index])
            invariant
                self.chars == old(self).chars,
                text == self.chars@,
                start == old(self).index,
                start <= self.index <= self.chars.len(),
                run_len(text, start as nat, class) == (self.index - start) + run_len(
                    text,
                    self.index as nat,
                    class,
                ),
                s@ == old(s)@ + text.subrange(start, self.index as int),
                forall|k: int| start <= k < self.index ==> class.holds(#[trigger] text[k]),
            decreases self.chars.len() - self.index,
        {
            push_char(s, self.chars[self.index]);
            assert(text.subrange(start, self.index + 1) =~= text.subrange(
                start,
                self.index as int,
            ).push(text[self.index as int]));
            self.index = self.index + 1;
        }
    }

    /// Reads a numeric literal, the cursor being on its first character.
    fn literal<P: Fn(String) -> u64>(&mut self, read_float: &P) -> (r: Result<Tok, Error>)
        requires
            old(self).wf(),
            old(self).index < old(self).chars.len(),
            is_literal_char(old(self).chars@[old(self).index as int]),
            reads_all(read_float),
        ensures
            final(self).chars == old(self).chars,
            final(self).wf(),
            final(self).index == old(self).index + 1 + run_len(
                old(self).chars@,
                (old(self).index + 1) as nat,
                Class::Literal,
            ),
            forall|fr: FloatRead|
                read_stands_for(
                    fr,
                    read_float,
                    points(
                        old(self).chars@.subrange(
                            old(self).index as int,
                            final(self).index as int,
                        ),
                    ) != 1,
                ) ==> token_outcome(r) == #[trigger] literal_token(
                    old(self).chars@.subrange(old(self).index as int, final(self).index as int),
                    old(self).index as nat,
                    fr,
                ),
    {
        let start = self.index;
        let mut text = String::new();
        push_char(&mut text, self.chars[start]);
        self.index = start + 1;
        self.take_run(Class::Literal, &mut text);
        let end = self.index;
        let ghost s = self.chars@.subrange(start as int, end as int);
        assert(text@ =~= s);
        // one pass over the literal: its points, and its value while there is none
        let mut dots: usize = 0;
        let mut value: Option<i128> = Some(0);
        let mut j = start;
        assert(self.chars@.subrange(start as int, start as int) =~= Seq::<char>::empty());
        while j < end
            invariant
                start <= j <= end <= self.chars.len(),
                forall|k: int| start <= k < end ==> is_literal_char(#[trigger] self.chars@[k]),
                dots == points(self.chars@.subrange(start as int, j as int)),
                dots <= j - start,
                dots == 0 ==> match value {
                    Some(v) => v == digits_value(self.chars@.subrange(start as int, j as int)),
                    None => digits_value(self.chars@.subrange(start as int, j as int))
                        > i128::MAX,
                },
            decreases end - j,
        {
            let c = self.chars[j];
            let ghost before = self.chars@.subrange(start as int, j as int);
            let ghost after = self.chars@.subrange(start as int, j + 1);
            assert(after.drop_last() =~= before);
            assert(after.last() == c);
            if c == '.' {
                dots = dots + 1;
            } else if dots == 0 {
                let d = if is_decimal_digit(c) {
                    (c as u32 - '0' as u32) as i128
                } else {
                    0
                };
                value = match value {
                    Some(v) => match v.checked_mul(10) {
                        Some(tens) => tens.checked_add(d),
                        None => None,
                    },
                    None => None,
                };
            }
            j = j + 1;
        }
        if dots > 1 || (end - start == 1 && self.chars[start] == '.') {
            assert(end - start == 1 ==> s =~= seq![self.chars@[start as int]]);
            assert(s == seq!['.'] ==> s.len() == 1 && s[0] == '.');
            Err(Error { position: start, message: String::from_str("Invalid numeric literal") })
        } else if dots == 1 {
            Ok(Tok::Lit(Const::Float(read_float(text))))
        } else {
            assert(s == seq!['.'] ==> s.len() == 1 && s[0] == '.');
            match value {
                Some(v) => Ok(Tok::Lit(Const::Int(v))),
                None => Err(
                    Error {
                        position: start,
                        message: String::from_str("Numeric literal too large"),
                    },
                ),
            }
        }
    }

    /// Reads an operator symbol, the cursor being on its first character.
    fn operator(&mut self) -> (tok: Tok)
        requires
            old(self).wf(),
            old(self).index < old(self).chars.len(),
        ensures
            final(self).chars == old(self).chars,
            final(self).wf(),
            final(self).index == old(self).index + 1 + run_len(
                old(self).chars@,
                (old(self).index + 1) as nat,
                Class::Operator,
            ),
            tok@ == TokView::Op(
                old(self).chars@.subrange(old(self).index as int, final(self).index as int),
            ),
    {
        let start = self.index;
        let mut text = String::new();
        push_char(&mut text, self.chars[start]);
        self.index = start + 1;
        self.take_run(Class::Operator, &mut text);
        assert(text@ =~= self.chars@.subrange(start as int, self.index as int));
        Tok::Op(text)
    }

    /// Reads a word, the cursor being on its first character.
    fn iden(&mut self) -> (tok: Tok)
        requires
            old(self).wf(),
            old(self).index < old(self).chars.len(),
        ensures
            final(self).chars == old(self).chars,
            final(self).wf(),
            final(self).index == old(self).index + 1 + run_len(
                old(self).chars@,
                (old(self).index + 1) as nat,
                Class::Word,
            ),
            tok@ == word_token(
                old(self).chars@.subrange(old(self).index as int, final(self).index as int),
            ),
    {
        let start = self.index;
        let mut text = String::new();
        push_char(&mut text, self.chars[start]);
        self.index = start + 1;
        self.take_run(Class::Word, &mut text);
        assert(text@ =~= self.chars@.subrange(start as int, self.index as int));
        proof {
            reveal_strlit("inf");
            reveal_strlit("undef");
            assert("inf"@ =~= seq!['i', 'n', 'f']);
            assert("undef"@ =~= seq!['u', 'n', 'd', 'e', 'f']);
        }
        if text == String::from_str("inf") {
            Tok::Inf
        } else if text == String::from_str("undef") {
            Tok::Undef
        } else {
            Tok::Iden(text)
        }
    }

    /// Reads the tokens from the cursor to the end of the text.
    pub fn lex<P: Fn(String) -> u64>(&mut self, read_float: &P) -> (r: Result<Vec<Tok>, Error>)
        requires
            old(self).wf(),
            reads_all(read_float),
        ensures
            final(self)@ == old(self)@,
            final(self).wf(),
            forall|fr: FloatRead|
                read_stands_for(fr, read_float, no_point(old(self)@)) ==> lex_outcome(r)
                    == #[trigger] tokens_from(old(self)@, old(self).position(), Seq::empty(), fr),
    {
        let mut toks: Vec<Tok> = Vec::new();
        let ghost text = self.chars@;
        let ghost first = self.index as nat;
        assert(tok_views(toks@) =~= Seq::<TokView>::empty());
        while self.index < self.chars.len()
            invariant
                self.chars@ == text,
                text == old(self)@,
                first == old(self).position(),
                self.index <= self.chars.len(),
                reads_all(read_float),
                forall|fr: FloatRead|
                    #![trigger tokens_from(text, first, Seq::empty(), fr)]
                    read_stands_for(fr, read_float, no_point(text)) ==> tokens_from(
                        text,
                        first,
                        Seq::empty(),
                        fr,
                    ) == tokens_from(text, self.index as nat, tok_views(toks@), fr),
            decreases self.chars.len() - self.index,
        {
            let c = self.chars[self.index];
            let ghost at = self.index as nat;
            let ghost done = tok_views(toks@);
            if c == '(' {
                self.index = self.index + 1;
                toks.push(Tok::LParen);
                assert(tok_views(toks@) =~= done.push(TokView::LParen));
            } else if c == ')' {
                self.index = self.index + 1;
                toks.push(Tok::RParen);
                assert(tok_views(toks@) =~= done.push(TokView::RParen));
            } else if is_decimal_digit(c) || c == '.' {
                let r = self.literal(read_float);
                proof {
                    lemma_run_within(text, at + 1, Class::Literal);
                    if no_point(text) {
                        lemma_no_point(text, at as int, self.index as int);
                    }
                }
                match r {
                    Ok(tok) => {
                        let ghost view = tok@;
                        toks.push(tok);
                        assert(tok_views(toks@) =~= done.push(view));
                    },
                    Err(e) => {
                        return Err(e);
                    },
                }
            } else if is_whitespace(c) {
                self.index = self.index + 1;
            } else if is_alphabetic(c) {
                let tok = self.iden();
                let ghost view = tok@;
                toks.push(tok);
                assert(tok_views(toks@) =~= done.push(view));
            } else {
                let tok = self.operator();
                let ghost view = tok@;
                toks.push(tok);
                assert(tok_views(toks@) =~= done.push(view));
            }
        }
        Ok(toks)
    }
}

/// The outcome of reading one token, as a mathematical value.
pub open spec fn token_outcome(r: Result<Tok, Error>) -> Result<TokView, LexErrorView> {
    match r {
        Ok(tok) => Ok(tok@),
        Err(e) => Err(e@),
    }
}

/// The outcome of reading a text, as a mathematical value.
pub open spec fn lex_outcome(r: Result<Vec<Tok>, Error>) -> Lexed {
    match r {
        Ok(toks) => Ok(tok_views(toks@)),
        Err(e) => Err(e@),
    }
}

/// Reads the tokens of a line of text. `read_float` reads a float literal.
///
/// Fails on a numeric literal with two points or with a point and no digit,
/// and on an integer literal that is too large. A text without a point
/// never asks the reader, and its tokens do not depend on it.
pub fn lex<P: Fn(String) -> u64>(s: String, read_float: P) -> (r: Result<Vec<Tok>, Error>)
    requires
        reads_all(&read_float),
    ensures
        forall|fr: FloatRead|
            read_stands_for(fr, &read_float, no_point(s@)) ==> lex_outcome(r)
                == #[trigger] spec_lex(s@, fr),
{
    Lexer::new(s.as_str()).lex(&read_float)
}

} // verus!
