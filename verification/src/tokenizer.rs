//! The tokenizer: it reads a character stream and hands out its tokens one at
//! a time, always holding the token that comes next.
use crate::lexicon::{
    lemma_lex_step, lemma_lex_well_formed, lemma_upcoming, lex, lex_step, lexeme, line_start,
    number, start, upcoming, word_token, LexState,
};
use crate::text::{collect_chars, lemma_run_end, scan, text_between, CharClass};
use crate::token::{well_formed, Lexeme, Token};
use std::str::Chars;
use vstd::prelude::*;
use vstd::std_specs::iter::IteratorSpec;

verus! {

/// A cursor over the tokens of a document.
pub struct Tokenizer {
    input: Vec<char>,
    pos: usize,
    current_token: Token,
    line: u32,
    passed: Ghost<Seq<Lexeme>>,
}

/// What was read last on a line, which decides what may come next.
enum After {
    Level,
    Pointer,
    Tag,
    Value,
}

/// The level that the digits of `v` from `from` up to `to` spell, if there
/// are any and the number fits in a byte.
fn read_level(v: &Vec<char>, from: usize, to: usize) -> (r: Option<u8>)
    requires
        from <= to <= v.len(),
        forall|k: int| from <= k < to ==> CharClass::Digit.has(#[trigger] v@[k]),
    ensures
        r == if from == to || number(v@.subrange(from as int, to as int)) > u8::MAX {
            None
        } else {
            Some(number(v@.subrange(from as int, to as int)) as u8)
        },
{
    if from == to {
        return None;
    }
    let mut value: u32 = 0;
    let mut fits = true;
    let mut k = from;
    assert(v@.subrange(from as int, from as int) =~= Seq::<char>::empty());
    while k < to
        invariant
            from <= k <= to <= v.len(),
            forall|j: int| from <= j < to ==> CharClass::Digit.has(#[trigger] v@[j]),
            fits ==> value == number(v@.subrange(from as int, k as int)) && value <= u8::MAX,
            !fits ==> number(v@.subrange(from as int, k as int)) > u8::MAX,
        decreases to - k,
    {
        let c = v[k];
        assert(CharClass::Digit.has(v@[k as int]));
        let ghost shorter = v@.subrange(from as int, k as int);
        let ghost longer = v@.subrange(from as int, k + 1);
        assert(longer.drop_last() =~= shorter);
        assert(longer.last() == c);
        assert(number(longer) == number(shorter) * 10 + (c as u32 - '0' as u32));
        if fits {
            let next: u32 = value * 10 + (c as u32 - '0' as u32);
            if next > 255 {
                fits = false;
            } else {
                value = next;
            }
        }
        k += 1;
    }
    if fits {
        Some(value as u8)
    } else {
        None
    }
}

/// The token that the word from `from` up to `to` is.
fn read_word(v: &Vec<char>, from: usize, to: usize, may_point: bool) -> (t: Token)
    requires
        from <= to <= v.len(),
    ensures
        t@ == word_token(v@.subrange(from as int, to as int), may_point),
{
    let ghost w = v@.subrange(from as int, to as int);
    if may_point && to - from >= 2 && v[from] == '@' && v[to - 1] == '@' {
        let id = text_between(v, from + 1, to - 1);
        assert(id@ =~= w.subrange(1, w.len() - 1));
        Token::Pointer(id)
    } else if to > from && v[from] == '_' {
        Token::CustomTag(text_between(v, from, to))
    } else {
        Token::Tag(text_between(v, from, to))
    }
}

impl Tokenizer {
    /// The characters of the document.
    pub closed spec fn input(&self) -> Seq<char> {
        self.input@
    }

    /// How many tokens have been passed.
    pub closed spec fn index(&self) -> int {
        self.passed@.len() as int
    }

    /// The token stream of the document.
    pub open spec fn stream(&self) -> Seq<Lexeme> {
        lex(self.input())
    }

    /// The token that comes next, with its line.
    pub open spec fn here(&self) -> Lexeme {
        self.stream()[self.index()]
    }

    spec fn state(&self) -> LexState {
        LexState {
            input: self.input@,
            pos: self.pos as int,
            token: self.current_token@,
            line: self.line,
        }
    }

    /// The tokenizer stands inside the document, and the tokens it has passed
    /// and those it will still produce are the document's token stream.
    pub closed spec fn wf(&self) -> bool {
        &&& self.pos <= self.input.len()
        &&& self.passed@ + upcoming(self.state()) == lex(self.input@)
    }

    /// The tokenizer always stands on a token of the stream, and that token is
    /// the one it holds.
    pub proof fn lemma_here(&self)
        requires
            self.wf(),
        ensures
            well_formed(self.stream()),
            0 <= self.index() < self.stream().len(),
            self.here().token.is_terminal() ==> self.index() == self.stream().len() - 1,
    {
        self.lemma_state();
    }

    /// The token that the tokenizer holds is the one it stands on.
    proof fn lemma_state(&self)
        requires
            self.wf(),
        ensures
            well_formed(self.stream()),
            0 <= self.index() < self.stream().len(),
            self.here() == lexeme(self.state()),
            self.here().token.is_terminal() ==> self.index() == self.stream().len() - 1,
    {
        lemma_upcoming(self.state());
        lemma_lex_well_formed(self.input@);
    }

    /// Reads the level of the line that begins at `p`.
    fn start_line(&mut self, p: usize)
        requires
            p <= old(self).input.len(),
        ensures
            final(self).state() == line_start(old(self).input@, p as int, old(self).line),
            final(self).input == old(self).input,
            final(self).passed == old(self).passed,
            final(self).pos <= final(self).input.len(),
    {
        let i = scan(&self.input, p, CharClass::Blank);
        let e = scan(&self.input, i, CharClass::Digit);
        proof {
            lemma_run_end(self.input@, i as int, CharClass::Digit);
        }
        if self.line < u32::MAX {
            self.line = self.line + 1;
        }
        if i >= self.input.len() {
            self.pos = i;
            self.current_token = Token::Eof;
        } else {
            self.pos = e;
            self.current_token = match read_level(&self.input, i, e) {
                Some(n) => Token::Level(n),
                None => Token::Invalid,
            };
        }
    }

    /// A tokenizer that stands on the first token of `chars`.
    pub fn new(chars: Chars<'_>) -> (t: Tokenizer)
        ensures
            t.wf(),
            t.input() == chars.remaining(),
            t.index() == 0,
    {
        let input = collect_chars(chars);
        let mut t = Tokenizer {
            input,
            pos: 0,
            current_token: Token::Eof,
            line: 0,
            passed: Ghost(Seq::empty()),
        };
        t.start_line(0);
        assert(t.passed@ + upcoming(t.state()) =~= upcoming(start(t.input@)));
        t
    }

    /// The token that comes next.
    pub fn current(&self) -> (r: &Token)
        requires
            self.wf(),
        ensures
            r@ == self.here().token,
    {
        proof {
            self.lemma_state();
        }
        &self.current_token
    }

    /// The number of the line that the token that comes next stands on.
    pub fn line(&self) -> (r: u32)
        requires
            self.wf(),
        ensures
            r == self.here().line,
    {
        proof {
            self.lemma_state();
        }
        self.line
    }

    /// Whether the tokenizer has reached the end of the input.
    pub fn done(&self) -> (r: bool)
        requires
            self.wf(),
        ensures
            r == (self.here().token is Eof),
    {
        proof {
            self.lemma_state();
        }
        match self.current_token {
            Token::Eof => true,
            _ => false,
        }
    }

    /// Moves on to the next token. On a terminal token the tokenizer stays.
    pub fn next_token(&mut self)
        requires
            old(self).wf(),
        ensures
            final(self).wf(),
            final(self).input() == old(self).input(),
            final(self).index() == if old(self).here().token.is_terminal() {
                old(self).index()
            } else {
                old(self).index() + 1
            },
    {
        proof {
            self.lemma_state();
            lemma_lex_step(self.state());
        }
        if self.current_token.is_terminal() {
            return ;
        }
        let ghost before = self.state();
        let ghost passed = self.passed@;
        let after = match &self.current_token {
            Token::Level(_) => After::Level,
            Token::Pointer(_) => After::Pointer,
            Token::Tag(_) => After::Tag,
            Token::CustomTag(_) => After::Tag,
            _ => After::Value,
        };
        self.passed = Ghost(passed.push(lexeme(before)));
        let i = scan(&self.input, self.pos, CharClass::Blank);
        if i >= self.input.len() {
            self.pos = i;
            self.current_token = Token::Eof;
        } else if self.input[i] == '\n' {
            self.start_line(i + 1);
        } else {
            match after {
                After::Level => {
                    let e = scan(&self.input, i, CharClass::Word);
                    self.current_token = read_word(&self.input, i, e, true);
                    self.pos = e;
                },
                After::Pointer => {
                    let e = scan(&self.input, i, CharClass::Word);
                    self.current_token = read_word(&self.input, i, e, false);
                    self.pos = e;
                },
                After::Tag => {
                    let e = scan(&self.input, i, CharClass::Value);
                    self.current_token = Token::LineValue(text_between(&self.input, i, e));
                    self.pos = e;
                },
                After::Value => {
                    self.pos = i;
                    self.current_token = Token::Invalid;
                },
            }
        }
        assert(self.state() == lex_step(before));
        assert(self.passed@ + upcoming(self.state()) =~= passed + upcoming(before));
    }

    /// Hands out the token that comes next and moves on.
    pub fn take_token(&mut self) -> (r: Token)
        requires
            old(self).wf(),
        ensures
            final(self).wf(),
            final(self).input() == old(self).input(),
            r@ == old(self).here().token,
            final(self).index() == if r@.is_terminal() {
                old(self).index()
            } else {
                old(self).index() + 1
            },
    {
        proof {
            self.lemma_state();
        }
        let r = self.current_token.duplicate();
        self.next_token();
        r
    }
}

} // verus!
