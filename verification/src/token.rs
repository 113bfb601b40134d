//! The tokens that a line is cut into.
use vstd::prelude::*;

verus! {

/// One syntactic unit of a line.
#[derive(Clone, Debug, PartialEq, Eq)]
pub enum Token {
    /// The nesting depth that a line begins with.
    Level(u8),
    /// A pointer, without the `@` on either side.
    Pointer(String),
    /// The keyword of a line.
    Tag(String),
    /// A keyword outside the fixed vocabulary; it begins with `_`.
    CustomTag(String),
    /// The text that follows the keyword, up to the end of the line.
    LineValue(String),
    /// The end of the input.
    Eof,
    /// Characters that are no token where they stand.
    Invalid,
}

/// A token as a mathematical value.
pub enum TokenView {
    Level(u8),
    Pointer(Seq<char>),
    Tag(Seq<char>),
    CustomTag(Seq<char>),
    LineValue(Seq<char>),
    Eof,
    Invalid,
}

impl TokenView {
    /// After a terminal token the tokenizer produces nothing new.
    pub open spec fn is_terminal(self) -> bool {
        self is Eof || self is Invalid
    }

    /// Whether a record that was introduced at depth `floor` ends before this
    /// token: at a level that is not deeper, or at the end of the input.
    pub open spec fn closes(self, floor: u8) -> bool {
        match self {
            TokenView::Level(n) => n <= floor,
            TokenView::Eof => true,
            _ => false,
        }
    }
}

impl View for Token {
    type V = TokenView;

    open spec fn view(&self) -> TokenView {
        match self {
            Token::Level(n) => TokenView::Level(*n),
            Token::Pointer(s) => TokenView::Pointer(s@),
            Token::Tag(s) => TokenView::Tag(s@),
            Token::CustomTag(s) => TokenView::CustomTag(s@),
            Token::LineValue(s) => TokenView::LineValue(s@),
            Token::Eof => TokenView::Eof,
            Token::Invalid => TokenView::Invalid,
        }
    }
}

impl Token {
    pub fn is_terminal(&self) -> (r: bool)
        ensures
            r == self@.is_terminal(),
    {
        match self {
            Token::Eof => true,
            Token::Invalid => true,
            _ => false,
        }
    }

    /// A copy of this token.
    pub fn duplicate(&self) -> (r: Token)
        ensures
            r@ == self@,
    {
        match self {
            Token::Level(n) => Token::Level(*n),
            Token::Pointer(s) => Token::Pointer(s.clone()),
            Token::Tag(s) => Token::Tag(s.clone()),
            Token::CustomTag(s) => Token::CustomTag(s.clone()),
            Token::LineValue(s) => Token::LineValue(s.clone()),
            Token::Eof => Token::Eof,
            Token::Invalid => Token::Invalid,
        }
    }
}

/// A token together with the number of the line it was read on.
pub struct Lexeme {
    pub token: TokenView,
    pub line: u32,
}

/// A token stream is well formed when it ends in a terminal token: there is
/// always a token to look at.
pub open spec fn well_formed(s: Seq<Lexeme>) -> bool {
    s.len() > 0 && s.last().token.is_terminal()
}

} // verus!
