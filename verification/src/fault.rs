//! What the parser reports: the faults that end a parse, and the notices that
//! it collects on the way.
use crate::record::{no_items, push_viewed, view_of, views};
use crate::token::{Token, TokenView};
use vstd::prelude::*;

verus! {

/// Why a parse was given up.
#[derive(Clone, Copy, Debug, PartialEq, Eq)]
pub enum FaultKind {
    /// The token is of a kind that cannot stand where it stands.
    UnexpectedToken,
    /// A tag that the record it stands in does not know.
    UnknownField,
    /// A value outside the fixed vocabulary of its field.
    MalformedValue,
    /// A record of the document does not begin with a level.
    MissingLevel,
}

/// A fault, with the line it was found on and the token that caused it.
#[derive(Clone, Debug, PartialEq, Eq)]
pub struct ParseFault {
    pub kind: FaultKind,
    pub line: u32,
    pub token: Token,
}

pub struct FaultView {
    pub kind: FaultKind,
    pub line: u32,
    pub token: TokenView,
}

impl View for ParseFault {
    type V = FaultView;

    open spec fn view(&self) -> FaultView {
        FaultView { kind: self.kind, line: self.line, token: self.token@ }
    }
}

/// What a notice is about.
#[derive(Clone, Copy, Debug, PartialEq, Eq)]
pub enum NoticeKind {
    /// A record of a type that is not read; it was skipped.
    Unsupported,
    /// A form of document other than the expected one; it was kept as written.
    FormatWarning,
}

/// Something worth telling that did not stop the parse: its kind, the line,
/// and the tag or value it is about.
#[derive(Clone, Debug, PartialEq, Eq)]
pub struct Notice {
    pub kind: NoticeKind,
    pub line: u32,
    pub text: String,
}

pub struct NoticeView {
    pub kind: NoticeKind,
    pub line: u32,
    pub text: Seq<char>,
}

impl View for Notice {
    type V = NoticeView;

    open spec fn view(&self) -> NoticeView {
        NoticeView { kind: self.kind, line: self.line, text: self.text@ }
    }
}

/// The notices `list`, with `notice` added where there is one.
pub open spec fn with_notice(list: Seq<NoticeView>, notice: Option<NoticeView>) -> Seq<NoticeView> {
    match notice {
        Some(n) => list.push(n),
        None => list,
    }
}

/// Adds `notice` to `list` where there is one.
pub fn add_notice(list: &mut Vec<Notice>, notice: Option<Notice>)
    ensures
        views(final(list)@) == with_notice(views(old(list)@), view_of(notice)),
{
    if let Some(n) = notice {
        push_viewed(list, n);
    }
}

/// A value together with the notices that were collected while it was read.
#[derive(Clone, Debug, PartialEq, Eq)]
pub struct Noted<T> {
    pub value: T,
    pub notices: Vec<Notice>,
}

pub struct NotedView<V> {
    pub value: V,
    pub notices: Seq<NoticeView>,
}

impl<T: View> View for Noted<T> {
    type V = NotedView<T::V>;

    open spec fn view(&self) -> NotedView<T::V> {
        NotedView { value: self.value@, notices: views(self.notices@) }
    }
}

/// The value `value` with nothing to tell about it.
pub open spec fn plain<V>(value: V) -> NotedView<V> {
    NotedView { value, notices: Seq::empty() }
}

impl<T: View> Noted<T> {
    pub fn new(value: T) -> (r: Self)
        ensures
            r@ == plain(value@),
    {
        Noted { value, notices: no_items() }
    }
}

} // verus!
