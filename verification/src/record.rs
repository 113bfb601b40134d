//! What all records are made of: optional texts, lists, and the pairs of
//! keyword and value that custom tags leave behind.
use crate::fault::FaultKind;
use crate::grammar::{fault_at, line_value, then, Outcome};
use crate::token::{Lexeme, TokenView};
use vstd::prelude::*;
use vstd::string::StringExecFns;

verus! {

/// The view of what `o` holds, if it holds something.
pub open spec fn view_of<T: View>(o: Option<T>) -> Option<T::V> {
    match o {
        Some(x) => Some(x@),
        None => None,
    }
}

/// The views of the items of `v`, in the same order.
pub open spec fn views<T: View>(v: Seq<T>) -> Seq<T::V> {
    v.map_values(|x: T| x@)
}

/// A list with nothing in it.
pub fn no_items<T: View>() -> (v: Vec<T>)
    ensures
        v@ == Seq::<T>::empty(),
        views(v@) == Seq::<T::V>::empty(),
{
    let v = Vec::new();
    assert(views(v@) =~= Seq::<T::V>::empty());
    v
}

/// Appends `x` to `v`.
pub fn push_viewed<T: View>(v: &mut Vec<T>, x: T)
    ensures
        views(final(v)@) == views(old(v)@).push(x@),
{
    v.push(x);
    assert(views(v@) =~= views(old(v)@).push(x@));
}

/// Appends the items of `more` to `v`.
pub fn append_viewed<T: View>(v: &mut Vec<T>, more: Vec<T>)
    ensures
        views(final(v)@) == views(old(v)@) + views(more@),
{
    let mut rest = more;
    v.append(&mut rest);
    assert(views(v@) =~= views(old(v)@) + views(more@));
}

/// A text with one more line: the text so far, the separator, and the line.
pub open spec fn continued(
    value: Option<Seq<char>>,
    separator: char,
    line: Seq<char>,
) -> Seq<char> {
    let text = match value {
        Some(t) => t,
        None => Seq::empty(),
    };
    text.push(separator) + line
}

/// Extends `value` by the separator and one more line.
pub fn extend(value: &mut Option<String>, separator: char, line: String)
    ensures
        view_of(*final(value)) == Some(continued(view_of(*old(value)), separator, line@)),
{
    let mut text = match value.take() {
        Some(t) => t,
        None => String::new(),
    };
    text.push(separator);
    text.append(line.as_str());
    *value = Some(text);
}

/// A keyword outside the fixed vocabulary, with the value of its line.
#[derive(Clone, Debug, PartialEq, Eq)]
pub struct CustomData {
    pub tag: String,
    pub value: String,
}

pub struct CustomDataView {
    pub tag: Seq<char>,
    pub value: Seq<char>,
}

impl View for CustomData {
    type V = CustomDataView;

    open spec fn view(&self) -> CustomDataView {
        CustomDataView { tag: self.tag@, value: self.value@ }
    }
}

/// The pair that the line with the keyword `tag` at `j` leaves behind.
pub open spec fn custom_data(s: Seq<Lexeme>, j: int, tag: Seq<char>) -> Outcome<CustomDataView> {
    then(line_value(s, j), |v: Seq<char>| CustomDataView { tag, value: v })
}

/// The pair that the custom tag at `j` leaves behind.
pub open spec fn custom_pair(s: Seq<Lexeme>, j: int) -> Outcome<CustomDataView> {
    match s[j].token {
        TokenView::CustomTag(t) => custom_data(s, j, t),
        _ => Err(fault_at(s, j, FaultKind::UnexpectedToken)),
    }
}

} // verus!
