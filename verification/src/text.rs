//! Characters and strings: the classes of characters that the line format
//! distinguishes, runs of such characters, and the few string operations that
//! the record readers need.
use crate::lexicon::is_pointer_word;
use crate::record::{push_viewed, views};
use std::str::Chars;
use vstd::prelude::*;
use vstd::std_specs::iter::IteratorSpec;

verus! {

/// The characters with the Unicode property `White_Space`.
pub open spec fn is_whitespace(c: char) -> bool {
    ||| '\u{9}' <= c <= '\u{d}'
    ||| c == ' '
    ||| c == '\u{85}'
    ||| c == '\u{a0}'
    ||| c == '\u{1680}'
    ||| '\u{2000}' <= c <= '\u{200a}'
    ||| c == '\u{2028}'
    ||| c == '\u{2029}'
    ||| c == '\u{202f}'
    ||| c == '\u{205f}'
    ||| c == '\u{3000}'
}

/// White space inside a line: any white space but the line feed, and the
/// byte-order mark that some files begin with.
pub open spec fn is_blank(c: char) -> bool {
    (is_whitespace(c) || c == '\u{feff}') && c != '\n'
}

pub open spec fn is_digit(c: char) -> bool {
    '0' <= c <= '9'
}

/// The kinds of character runs that a line is cut into.
#[derive(Clone, Copy, Debug, PartialEq, Eq)]
pub enum CharClass {
    /// Blanks between the parts of a line.
    Blank,
    /// A word: everything up to the next white space.
    Word,
    /// A value: everything up to the end of the line.
    Value,
    /// Decimal digits.
    Digit,
    /// One entry of a comma-separated list.
    Entry,
}

impl CharClass {
    pub open spec fn has(self, c: char) -> bool {
        match self {
            CharClass::Blank => is_blank(c),
            CharClass::Word => !is_whitespace(c),
            CharClass::Value => c != '\n' && c != '\r',
            CharClass::Digit => is_digit(c),
            CharClass::Entry => c != ',',
        }
    }

    pub fn contains(self, c: char) -> (r: bool)
        ensures
            r == self.has(c),
    {
        match self {
            CharClass::Blank => (whitespace(c) || c == '\u{feff}') && c != '\n',
            CharClass::Word => !whitespace(c),
            CharClass::Value => c != '\n' && c != '\r',
            CharClass::Digit => '0' <= c && c <= '9',
            CharClass::Entry => c != ',',
        }
    }
}

pub fn whitespace(c: char) -> (r: bool)
    ensures
        r == is_whitespace(c),
{
    ('\u{9}' <= c && c <= '\u{d}') || c == ' ' || c == '\u{85}' || c == '\u{a0}' || c
        == '\u{1680}' || ('\u{2000}' <= c && c <= '\u{200a}') || c == '\u{2028}' || c
        == '\u{2029}' || c == '\u{202f}' || c == '\u{205f}' || c == '\u{3000}'
}

/// Where the run of `class` characters that starts at `i` ends: the first
/// position from `i` on that holds a character outside the class, or the end
/// of `t`.
pub open spec fn run_end(t: Seq<char>, i: int, class: CharClass) -> int
    decreases t.len() - i,
{
    if 0 <= i < t.len() && class.has(t[i]) {
        run_end(t, i + 1, class)
    } else {
        i
    }
}

/// A run ends at or after its start and inside the text, holds only
/// characters of its class, and is followed by none of them.
pub proof fn lemma_run_end(t: Seq<char>, i: int, class: CharClass)
    requires
        0 <= i <= t.len(),
    ensures
        i <= run_end(t, i, class) <= t.len(),
        forall|k: int| i <= k < run_end(t, i, class) ==> class.has(#[trigger] t[k]),
        run_end(t, i, class) < t.len() ==> !class.has(t[run_end(t, i, class)]),
    decreases t.len() - i,
{
    if i < t.len() && class.has(t[i]) {
        lemma_run_end(t, i + 1, class);
    }
}

/// Finds the end of the run of `class` characters that starts at `i`.
pub fn scan(v: &Vec<char>, i: usize, class: CharClass) -> (e: usize)
    requires
        i <= v.len(),
    ensures
        e == run_end(v@, i as int, class),
        i <= e <= v.len(),
{
    let mut e = i;
    while e < v.len() && class.contains(v[e])
        invariant
            i <= e <= v.len(),
            run_end(v@, i as int, class) == run_end(v@, e as int, class),
        decreases v.len() - e,
    {
        e += 1;
    }
    e
}

/// `String::push` appends one character to the string.
pub assume_specification[ String::push ](s: &mut String, c: char)
    ensures
        final(s)@ == old(s)@.push(c),
;

/// The characters of `v` from `from` up to `to`, as a string.
pub fn text_between(v: &Vec<char>, from: usize, to: usize) -> (s: String)
    requires
        from <= to <= v.len(),
    ensures
        s@ == v@.subrange(from as int, to as int),
{
    let mut s = String::new();
    let mut i = from;
    while i < to
        invariant
            from <= i <= to <= v.len(),
            s@ == v@.subrange(from as int, i as int),
        decreases to - i,
    {
        s.push(v[i]);
        i += 1;
        assert(s@ =~= v@.subrange(from as int, i as int));
    }
    s
}

/// `Chars::as_str` gives the part of the string that the iterator has not
/// handed out yet.
pub assume_specification<'a>[ Chars::<'a>::as_str ](chars: &Chars<'a>) -> (s: &'a str)
    ensures
        s@ == chars.remaining(),
;

/// Reads a character stream to its end.
pub fn collect_chars(chars: Chars<'_>) -> (v: Vec<char>)
    ensures
        v@ == chars.remaining(),
{
    chars_of(chars.as_str())
}

/// The characters of a string.
pub fn chars_of(s: &str) -> (v: Vec<char>)
    ensures
        v@ == s@,
{
    let mut rest = s.chars();
    let mut v: Vec<char> = Vec::new();
    proof {
        broadcast use vstd::string::axiom_spec_iter;

        assert(s@ =~= v@ + rest.remaining());
    }
    loop
        invariant
            s@ == v@ + rest.remaining(),
            rest.decrease() is Some,
        decreases rest.decrease()->0,
    {
        broadcast use vstd::string::next_postcondition;

        match rest.next() {
            Some(c) => {
                v.push(c);
                assert(s@ =~= v@ + rest.remaining());
            },
            None => {
                assert(s@ =~= v@);
                return v;
            },
        }
    }
}

/// Whether two strings hold the same characters.
pub fn same_text(a: &str, b: &str) -> (r: bool)
    ensures
        r == (a@ == b@),
{
    let x = a.as_bytes();
    let y = b.as_bytes();
    proof {
        vstd::utf8::encode_utf8_decode_utf8(a@);
        vstd::utf8::encode_utf8_decode_utf8(b@);
    }
    if x.len() != y.len() {
        return false;
    }
    let mut i: usize = 0;
    while i < x.len()
        invariant
            x@ == vstd::utf8::encode_utf8(a@),
            y@ == vstd::utf8::encode_utf8(b@),
            x@.len() == y@.len(),
            i <= x@.len(),
            forall|k: int| 0 <= k < i ==> x@[k] == y@[k],
        decreases x@.len() - i,
    {
        if x[i] != y[i] {
            return false;
        }
        i += 1;
    }
    assert(x@ =~= y@);
    true
}

/// The identifier that a value refers to: what stands between the `@` of a
/// pointer, or the value itself where it is not written as a pointer.
pub open spec fn reference(v: Seq<char>) -> Seq<char> {
    if is_pointer_word(v) {
        v.subrange(1, v.len() - 1)
    } else {
        v
    }
}

/// Takes the `@` off both sides of a value that is written as a pointer.
pub fn reference_id(value: String) -> (r: String)
    ensures
        r@ == reference(value@),
{
    let v = chars_of(value.as_str());
    let n = v.len();
    if n >= 2 && v[0] == '@' && v[n - 1] == '@' {
        text_between(&v, 1, n - 1)
    } else {
        value
    }
}

/// Where the text from `lo` up to `hi` begins once the white space before it
/// is taken off.
pub open spec fn trim_start_at(t: Seq<char>, lo: int, hi: int) -> int
    decreases hi - lo,
{
    if lo < hi && is_whitespace(t[lo]) {
        trim_start_at(t, lo + 1, hi)
    } else {
        lo
    }
}

/// Where the text from `lo` up to `hi` ends once the white space after it is
/// taken off.
pub open spec fn trim_end_at(t: Seq<char>, lo: int, hi: int) -> int
    decreases hi - lo,
{
    if lo < hi && is_whitespace(t[hi - 1]) {
        trim_end_at(t, lo, hi - 1)
    } else {
        hi
    }
}

/// The text from `lo` up to `hi` without the white space on either side.
pub open spec fn trimmed(t: Seq<char>, lo: int, hi: int) -> Seq<char> {
    let from = trim_start_at(t, lo, hi);
    t.subrange(from, trim_end_at(t, from, hi))
}

/// The entries of the comma-separated list that begins at `i`, each without
/// the white space around it.
pub open spec fn entries(t: Seq<char>, i: int) -> Seq<Seq<char>>
    decreases t.len() - i,
    when 0 <= i <= t.len()
    via entries_decreases
{
    let k = run_end(t, i, CharClass::Entry);
    if k >= t.len() {
        seq![trimmed(t, i, t.len() as int)]
    } else {
        seq![trimmed(t, i, k)] + entries(t, k + 1)
    }
}

#[via_fn]
proof fn entries_decreases(t: Seq<char>, i: int) {
    lemma_run_end(t, i, CharClass::Entry);
}

/// Finds the text from `lo` up to `hi` without the white space around it.
fn trim_bounds(v: &Vec<char>, lo: usize, hi: usize) -> (r: (usize, usize))
    requires
        lo <= hi <= v.len(),
    ensures
        r.0 == trim_start_at(v@, lo as int, hi as int),
        r.1 == trim_end_at(v@, r.0 as int, hi as int),
        lo <= r.0 <= r.1 <= hi,
{
    let mut from = lo;
    while from < hi && whitespace(v[from])
        invariant
            lo <= from <= hi <= v.len(),
            trim_start_at(v@, lo as int, hi as int) == trim_start_at(v@, from as int, hi as int),
        decreases hi - from,
    {
        from += 1;
    }
    let mut to = hi;
    while from < to && whitespace(v[to - 1])
        invariant
            from <= to <= hi <= v.len(),
            trim_end_at(v@, from as int, hi as int) == trim_end_at(v@, from as int, to as int),
        decreases to - from,
    {
        to -= 1;
    }
    (from, to)
}

/// Cuts a comma-separated list into its entries.
pub fn split_entries(s: &str) -> (r: Vec<String>)
    ensures
        views(r@) == entries(s@, 0),
{
    let v = chars_of(s);
    let mut out: Vec<String> = Vec::new();
    let mut i: usize = 0;
    assert(views(out@) =~= Seq::<Seq<char>>::empty());
    loop
        invariant
            v@ == s@,
            0 <= i <= v.len(),
            entries(v@, 0) == views(out@) + entries(v@, i as int),
        decreases v.len() - i,
    {
        let k = scan(&v, i, CharClass::Entry);
        let (from, to) = trim_bounds(&v, i, k);
        let ghost before = views(out@);
        push_viewed(&mut out, text_between(&v, from, to));
        if k >= v.len() {
            assert(views(out@) =~= before + entries(v@, i as int));
            return out;
        }
        assert(views(out@) + entries(v@, k + 1) =~= before + entries(v@, i as int));
        i = k + 1;
    }
}

/// The text `t` in upper case, as `str::to_uppercase` gives it.
pub uninterp spec fn uppercased(t: Seq<char>) -> Seq<char>;

/// `str::to_uppercase` gives the upper-case form of a string, which depends
/// on its characters alone.
#[verifier::external_body]
pub(crate) fn uppercase(s: &str) -> (r: String)
    ensures
        r@ == uppercased(s@),
{
    s.to_uppercase()
}

/// The character for a digit.
pub open spec fn digit_char(d: nat) -> char {
    if d == 0 {
        '0'
    } else if d == 1 {
        '1'
    } else if d == 2 {
        '2'
    } else if d == 3 {
        '3'
    } else if d == 4 {
        '4'
    } else if d == 5 {
        '5'
    } else if d == 6 {
        '6'
    } else if d == 7 {
        '7'
    } else if d == 8 {
        '8'
    } else {
        '9'
    }
}

/// The decimal notation of `n`.
pub open spec fn decimal(n: nat) -> Seq<char>
    decreases n,
{
    if n < 10 {
        seq![digit_char(n)]
    } else {
        decimal(n / 10).push(digit_char(n % 10))
    }
}

fn digit_of(d: u32) -> (c: char)
    requires
        d < 10,
    ensures
        c == digit_char(d as nat),
{
    if d == 0 {
        '0'
    } else if d == 1 {
        '1'
    } else if d == 2 {
        '2'
    } else if d == 3 {
        '3'
    } else if d == 4 {
        '4'
    } else if d == 5 {
        '5'
    } else if d == 6 {
        '6'
    } else if d == 7 {
        '7'
    } else if d == 8 {
        '8'
    } else {
        '9'
    }
}

/// Appends the decimal notation of `n` to `s`.
pub fn push_decimal(s: &mut String, n: u32)
    ensures
        final(s)@ == old(s)@ + decimal(n as nat),
    decreases n,
{
    if n >= 10 {
        push_decimal(s, n / 10);
    }
    s.push(digit_of(n % 10));
    assert(s@ =~= old(s)@ + decimal(n as nat));
}

} // verus!
