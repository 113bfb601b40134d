//! What the tokenizer produces, as a function of the characters.
//!
//! A line reads `LEVEL [@POINTER@] TAG [VALUE]`. The level is a decimal
//! number that fits in a byte. The word after it is a pointer if it is wrapped
//! in `@`, else the tag; a tag that begins with `_` is a custom tag. The value
//! is the rest of the line after the blanks that follow the tag, if anything is
//! left. Where the characters do not fit this shape, the token is
//! [`TokenView::Invalid`], and it stays the last one.
use crate::text::{lemma_run_end, run_end, CharClass};
use crate::token::{well_formed, Lexeme, TokenView};
use vstd::prelude::*;

verus! {

/// The state of a tokenizer: the input, how far it has been read, the token
/// that was read last and the line it stands on.
pub struct LexState {
    pub input: Seq<char>,
    pub pos: int,
    pub token: TokenView,
    pub line: u32,
}

/// The line counter stops at the largest number it can hold.
pub open spec fn bump(line: u32) -> u32 {
    if line < u32::MAX {
        (line + 1) as u32
    } else {
        line
    }
}

/// The number that a run of decimal digits stands for.
pub open spec fn number(digits: Seq<char>) -> nat
    decreases digits.len(),
{
    if digits.len() == 0 {
        0
    } else {
        number(digits.drop_last()) * 10 + (digits.last() as u32 - '0' as u32) as nat
    }
}

/// A word is a pointer when it is wrapped in `@`.
pub open spec fn is_pointer_word(w: Seq<char>) -> bool {
    w.len() >= 2 && w[0] == '@' && w.last() == '@'
}

/// The token that the word `w` is. Only the first word after the level can be
/// a pointer.
pub open spec fn word_token(w: Seq<char>, may_point: bool) -> TokenView {
    if may_point && is_pointer_word(w) {
        TokenView::Pointer(w.subrange(1, w.len() - 1))
    } else if w.len() > 0 && w[0] == '_' {
        TokenView::CustomTag(w)
    } else {
        TokenView::Tag(w)
    }
}

/// A pointer keeps its identifier as it is written between the `@`, whatever
/// the identifier holds.
pub proof fn lemma_pointer(id: Seq<char>)
    ensures
        word_token(seq!['@'] + id + seq!['@'], true) == TokenView::Pointer(id),
{
    let w = seq!['@'] + id + seq!['@'];
    assert(w.subrange(1, w.len() - 1) =~= id);
}

/// The state after the level of the line that begins at `p` has been read.
pub open spec fn line_start(input: Seq<char>, p: int, line: u32) -> LexState {
    let i = run_end(input, p, CharClass::Blank);
    let e = run_end(input, i, CharClass::Digit);
    let n = number(input.subrange(i, e));
    if i >= input.len() {
        LexState { input, pos: i, token: TokenView::Eof, line: bump(line) }
    } else if e == i || n > u8::MAX {
        LexState { input, pos: e, token: TokenView::Invalid, line: bump(line) }
    } else {
        LexState { input, pos: e, token: TokenView::Level(n as u8), line: bump(line) }
    }
}

/// The state at the first token of `input`.
pub open spec fn start(input: Seq<char>) -> LexState {
    line_start(input, 0, 0)
}

/// The state after the next token has been read.
pub open spec fn lex_step(s: LexState) -> LexState {
    let i = run_end(s.input, s.pos, CharClass::Blank);
    if s.token.is_terminal() {
        s
    } else if i >= s.input.len() {
        LexState { pos: i, token: TokenView::Eof, ..s }
    } else if s.input[i] == '\n' {
        line_start(s.input, i + 1, s.line)
    } else {
        match s.token {
            TokenView::Level(_) => {
                let e = run_end(s.input, i, CharClass::Word);
                LexState { pos: e, token: word_token(s.input.subrange(i, e), true), ..s }
            },
            TokenView::Pointer(_) => {
                let e = run_end(s.input, i, CharClass::Word);
                LexState { pos: e, token: word_token(s.input.subrange(i, e), false), ..s }
            },
            TokenView::Tag(_) | TokenView::CustomTag(_) => {
                let e = run_end(s.input, i, CharClass::Value);
                LexState { pos: e, token: TokenView::LineValue(s.input.subrange(i, e)), ..s }
            },
            _ => LexState { pos: i, token: TokenView::Invalid, ..s },
        }
    }
}

pub open spec fn lexeme(s: LexState) -> Lexeme {
    Lexeme { token: s.token, line: s.line }
}

/// What is left to read, counted so that every step makes it smaller.
pub open spec fn distance(s: LexState) -> int {
    s.input.len() - s.pos + if s.token.is_terminal() {
        0int
    } else {
        1int
    }
}

pub open spec fn in_bounds(s: LexState) -> bool {
    0 <= s.pos <= s.input.len()
}

/// The level of a line is read within the input and leaves less to read.
pub proof fn lemma_line_start(input: Seq<char>, p: int, line: u32)
    requires
        0 <= p <= input.len(),
    ensures
        in_bounds(line_start(input, p, line)),
        line_start(input, p, line).input == input,
        line_start(input, p, line).pos >= p,
{
    lemma_run_end(input, p, CharClass::Blank);
    let i = run_end(input, p, CharClass::Blank);
    lemma_run_end(input, i, CharClass::Digit);
}

/// A step stays within the input, and brings a state that is not terminal
/// closer to the end.
pub proof fn lemma_lex_step(s: LexState)
    requires
        in_bounds(s),
    ensures
        in_bounds(lex_step(s)),
        lex_step(s).input == s.input,
        !s.token.is_terminal() ==> distance(lex_step(s)) < distance(s),
{
    lemma_run_end(s.input, s.pos, CharClass::Blank);
    let i = run_end(s.input, s.pos, CharClass::Blank);
    if !s.token.is_terminal() && i < s.input.len() {
        if s.input[i] == '\n' {
            lemma_line_start(s.input, i + 1, s.line);
        } else {
            lemma_run_end(s.input, i, CharClass::Word);
            lemma_run_end(s.input, i, CharClass::Value);
        }
    }
}

/// The tokens from the state `s` on, up to the terminal token that ends them.
pub open spec fn upcoming(s: LexState) -> Seq<Lexeme>
    decreases distance(s),
    when in_bounds(s)
    via upcoming_decreases
{
    if s.token.is_terminal() {
        seq![lexeme(s)]
    } else {
        seq![lexeme(s)] + upcoming(lex_step(s))
    }
}

#[via_fn]
proof fn upcoming_decreases(s: LexState) {
    lemma_lex_step(s);
}

/// The token stream of a document.
pub open spec fn lex(input: Seq<char>) -> Seq<Lexeme> {
    upcoming(start(input))
}

/// The tokens from any state on begin with its own token and end in a
/// terminal one.
pub proof fn lemma_upcoming(s: LexState)
    requires
        in_bounds(s),
    ensures
        well_formed(upcoming(s)),
        upcoming(s)[0] == lexeme(s),
    decreases distance(s),
{
    if !s.token.is_terminal() {
        lemma_lex_step(s);
        lemma_upcoming(lex_step(s));
    }
}

/// The token stream of every input is well formed.
pub proof fn lemma_lex_well_formed(input: Seq<char>)
    ensures
        well_formed(lex(input)),
{
    lemma_line_start(input, 0, 0);
    lemma_upcoming(start(input));
}

} // verus!
