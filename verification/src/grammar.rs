//! The shape that all records share.
//!
//! A record is introduced by a tag on a line of some depth, its floor. What
//! follows belongs to the record as long as it lies deeper than the floor: the
//! record ends before the first level that is not deeper, or at the end of the
//! input. In between, a level is passed over, a tag is a field of the record,
//! and a custom tag is kept as a pair of keyword and value. Records differ only
//! in the fields they know, which is what [`Block`] captures.
use crate::fault::{FaultKind, FaultView};
use crate::token::{well_formed, Lexeme, TokenView};
use vstd::prelude::*;

verus! {

/// A fault, and the position of the token at which reading stopped on it.
pub struct Halt {
    pub fault: FaultView,
    pub at: int,
}

/// What reading something from the token stream gives: the value and the
/// position of the token that comes after it, or the fault that was found.
pub type Outcome<T> = Result<(T, int), Halt>;

/// The fault of kind `kind` at the token at `j`.
pub open spec fn fault_at(s: Seq<Lexeme>, j: int, kind: FaultKind) -> Halt {
    Halt { fault: FaultView { kind, line: s[j].line, token: s[j].token }, at: j }
}

/// Whether the token at `j` is a tag or a custom tag.
pub open spec fn on_tag(s: Seq<Lexeme>, j: int) -> bool {
    s[j].token is Tag || s[j].token is CustomTag
}

/// The depth of what lies directly below `floor`.
pub open spec fn deeper(floor: u8) -> u8 {
    if floor < u8::MAX {
        (floor + 1) as u8
    } else {
        floor
    }
}

/// The outcome `o` with its value replaced by `f` of it.
pub open spec fn then<A, B>(o: Outcome<A>, f: spec_fn(A) -> B) -> Outcome<B> {
    match o {
        Ok((a, k)) => Ok((f(a), k)),
        Err(e) => Err(e),
    }
}

/// The value of the line whose tag stands at `j`: the tag is passed, and the
/// token after it has to be a line value.
pub open spec fn line_value(s: Seq<Lexeme>, j: int) -> Outcome<Seq<char>> {
    if !on_tag(s, j) {
        Err(fault_at(s, j, FaultKind::UnexpectedToken))
    } else {
        match s[j + 1].token {
            TokenView::LineValue(v) => Ok((v, j + 2)),
            _ => Err(fault_at(s, j + 1, FaultKind::UnexpectedToken)),
        }
    }
}

/// The value of the line whose tag stands at `j`, where the value is one of
/// a fixed vocabulary: `code` gives what a word of it stands for.
pub open spec fn coded<T>(s: Seq<Lexeme>, j: int, code: spec_fn(Seq<char>) -> Option<T>) -> Outcome<
    T,
> {
    if !on_tag(s, j) {
        Err(fault_at(s, j, FaultKind::UnexpectedToken))
    } else {
        match s[j + 1].token {
            TokenView::LineValue(v) => match code(v) {
                Some(x) => Ok((x, j + 2)),
                None => Err(fault_at(s, j + 1, FaultKind::MalformedValue)),
            },
            _ => Err(fault_at(s, j + 1, FaultKind::UnexpectedToken)),
        }
    }
}

/// The tag at `j` is passed, and nothing else.
pub open spec fn bare_tag(s: Seq<Lexeme>, j: int) -> Outcome<()> {
    if !on_tag(s, j) {
        Err(fault_at(s, j, FaultKind::UnexpectedToken))
    } else {
        Ok(((), j + 1))
    }
}

/// No token from `from` up to `to` ends a record of depth `floor`.
pub open spec fn clear(s: Seq<Lexeme>, from: int, to: int, floor: u8) -> bool {
    forall|m: int| from <= m < to ==> !(#[trigger] s[m]).token.closes(floor)
}

/// Reading on from `from` in a record of depth `floor` ends at `to`: the token
/// at `to` ends the record, and none before it does.
pub open spec fn reaches(s: Seq<Lexeme>, from: int, to: int, floor: u8) -> bool {
    &&& from <= to < s.len()
    &&& s[to].token.closes(floor)
    &&& clear(s, from, to, floor)
}

/// The tokens from `from` up to `to` are a whole record of depth `floor`,
/// introducing tag included: the token at `to` is the first that ends it.
pub open spec fn spans(s: Seq<Lexeme>, from: int, to: int, floor: u8) -> bool {
    from < to && reaches(s, from, to, floor)
}

/// A kind of record: the fields it knows.
pub trait Block: Sized {
    /// The record `acc` after the field whose tag or custom tag stands at `j`
    /// has been read into it.
    spec fn field(s: Seq<Lexeme>, floor: u8, acc: Self, j: int) -> Outcome<Self>;

    /// Reading a field moves forward within the stream, and passes no token
    /// that would end the record.
    proof fn lemma_field(s: Seq<Lexeme>, floor: u8, acc: Self, j: int)
        requires
            well_formed(s),
            0 <= j < s.len(),
            on_tag(s, j),
        ensures
            Self::field(s, floor, acc, j) matches Ok((_, k)) ==> j < k < s.len() && clear(
                s,
                j,
                k,
                floor,
            ),
    ;
}

/// The record `acc` after the fields from `i` on have been read into it, and
/// where the record ends.
pub open spec fn block<R: Block>(s: Seq<Lexeme>, i: int, floor: u8, acc: R) -> Outcome<R>
    decreases s.len() - i,
    when well_formed(s) && 0 <= i < s.len()
    via block_decreases::<R>
{
    match s[i].token {
        TokenView::Eof => Ok((acc, i)),
        TokenView::Level(n) => if n <= floor {
            Ok((acc, i))
        } else {
            block(s, i + 1, floor, acc)
        },
        TokenView::Tag(_) | TokenView::CustomTag(_) => match R::field(s, floor, acc, i) {
            Ok((next, k)) => block(s, k, floor, next),
            Err(e) => Err(e),
        },
        _ => Err(fault_at(s, i, FaultKind::UnexpectedToken)),
    }
}

#[via_fn]
proof fn block_decreases<R: Block>(s: Seq<Lexeme>, i: int, floor: u8, acc: R) {
    if on_tag(s, i) {
        R::lemma_field(s, floor, acc, i);
    }
}

/// A record ends at the first token from `i` on that is a level no deeper
/// than its floor, or the end of the input, and nowhere else.
pub proof fn lemma_block<R: Block>(s: Seq<Lexeme>, i: int, floor: u8, acc: R)
    requires
        well_formed(s),
        0 <= i < s.len(),
    ensures
        block(s, i, floor, acc) matches Ok((_, k)) ==> reaches(s, i, k, floor),
    decreases s.len() - i,
{
    match s[i].token {
        TokenView::Level(n) => {
            if n > floor {
                lemma_block(s, i + 1, floor, acc);
            }
        },
        TokenView::Tag(_) | TokenView::CustomTag(_) => {
            R::lemma_field(s, floor, acc, i);
            match R::field(s, floor, acc, i) {
                Ok((next, k)) => {
                    lemma_block(s, k, floor, next);
                },
                Err(_) => {},
            }
        },
        _ => {},
    }
}

} // verus!
