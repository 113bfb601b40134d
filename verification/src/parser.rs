//! The parser: it reads the records of a document off the token stream.
use crate::document::{document, lemma_record, lemma_skip_end, pointer, skip_end, unsupported};
use crate::fault::{plain, FaultKind, Notice, NoticeKind, Noted, ParseFault};
use crate::grammar::{bare_tag, deeper, fault_at, line_value, Outcome};
use crate::lexicon::lex;
use crate::record::{append_viewed, custom_data, push_viewed, view_of, views, CustomData};
use crate::text::{decimal, push_decimal, same_text};
use crate::token::{well_formed, Lexeme, Token, TokenView};
use crate::tokenizer::Tokenizer;
use crate::tree::{GedcomData, GedcomDataView};
use std::str::Chars;
use vstd::prelude::*;
use vstd::std_specs::iter::IteratorSpec;
use vstd::string::StringExecFns;

verus! {

/// Reads the records of a document.
pub struct Parser {
    tokenizer: Tokenizer,
}

/// What the parser finds where it stands, seen from a record of some depth.
pub enum Look {
    /// The record ends here.
    Close,
    /// A level below the record's own.
    Deeper,
    /// A field of the record, with its tag.
    Field(String),
    /// A custom tag, with its keyword.
    Custom(String),
    /// Nothing that may stand in a record.
    Other,
}

/// Whether the result `r` of a parse, after which the parser stands at `end`,
/// is the outcome `o`: the same value and the token after it, or the same
/// fault and the token it was found at.
pub open spec fn agrees<T: View>(r: Result<T, ParseFault>, end: int, o: Outcome<T::V>) -> bool {
    match o {
        Ok((v, k)) => r matches Ok(x) && x@ == v && end == k,
        Err(h) => r matches Err(e) && e@ == h.fault && end == h.at,
    }
}

/// The depth of what lies directly below `floor`.
pub fn below(floor: u8) -> (r: u8)
    ensures
        r == deeper(floor),
{
    if floor < u8::MAX {
        floor + 1
    } else {
        floor
    }
}

impl Parser {
    /// The characters of the document.
    pub closed spec fn input(&self) -> Seq<char> {
        self.tokenizer.input()
    }

    /// The token stream of the document.
    pub open spec fn stream(&self) -> Seq<Lexeme> {
        lex(self.input())
    }

    /// The position in the token stream of the token that comes next.
    pub closed spec fn pos(&self) -> int {
        self.tokenizer.index()
    }

    /// The parser stands on a token of the document's token stream.
    pub closed spec fn wf(&self) -> bool {
        self.tokenizer.wf()
    }

    /// The token that comes next.
    pub open spec fn here(&self) -> TokenView {
        self.stream()[self.pos()].token
    }

    /// A parser always stands on a token of a well-formed stream.
    pub proof fn lemma_wf(&self)
        requires
            self.wf(),
        ensures
            well_formed(self.stream()),
            0 <= self.pos() < self.stream().len(),
    {
        self.tokenizer.lemma_here();
    }

    /// A parser at the beginning of the document `chars`.
    pub fn new(chars: Chars<'_>) -> (p: Parser)
        ensures
            p.wf(),
            p.input() == chars.remaining(),
            p.pos() == 0,
    {
        Parser { tokenizer: Tokenizer::new(chars) }
    }

    /// The number of the line that the parser stands on, as a label for
    /// messages.
    pub fn dbg(&self) -> (r: String)
        requires
            self.wf(),
        ensures
            r@ == ("line "@ + decimal(self.stream()[self.pos()].line as nat)).push(':'),
    {
        let mut label = String::from_str("line ");
        push_decimal(&mut label, self.line());
        label.push(':');
        label
    }

    /// The number of the line that the parser stands on.
    pub fn line(&self) -> (r: u32)
        requires
            self.wf(),
        ensures
            r == self.stream()[self.pos()].line,
    {
        self.tokenizer.line()
    }

    /// The value that the parser stands on, if it stands on one.
    pub(crate) fn value_here(&self) -> (r: Option<String>)
        requires
            self.wf(),
        ensures
            view_of(r) == match self.here() {
                TokenView::LineValue(v) => Some(v),
                _ => None,
            },
    {
        match self.tokenizer.current() {
            Token::LineValue(v) => Some(v.clone()),
            _ => None,
        }
    }

    /// The fault of kind `kind` at the token that comes next.
    pub(crate) fn fault(&self, kind: FaultKind) -> (f: ParseFault)
        requires
            self.wf(),
        ensures
            f@ == fault_at(self.stream(), self.pos(), kind).fault,
    {
        ParseFault {
            kind,
            line: self.tokenizer.line(),
            token: self.tokenizer.current().duplicate(),
        }
    }

    /// Moves on by one token.
    pub(crate) fn advance(&mut self)
        requires
            old(self).wf(),
        ensures
            final(self).wf(),
            final(self).input() == old(self).input(),
            final(self).pos() == if old(self).here().is_terminal() {
                old(self).pos()
            } else {
                old(self).pos() + 1
            },
    {
        self.tokenizer.next_token();
    }

    /// What stands where the parser stands, for a record of depth `floor`.
    pub(crate) fn look(&self, floor: u8) -> (r: Look)
        requires
            self.wf(),
        ensures
            match self.here() {
                TokenView::Level(n) => if n <= floor {
                    r is Close
                } else {
                    r is Deeper
                },
                TokenView::Eof => r is Close,
                TokenView::Tag(t) => r matches Look::Field(x) && x@ == t,
                TokenView::CustomTag(t) => r matches Look::Custom(x) && x@ == t,
                _ => r is Other,
            },
    {
        match self.tokenizer.current() {
            Token::Level(n) => if *n <= floor {
                Look::Close
            } else {
                Look::Deeper
            },
            Token::Eof => Look::Close,
            Token::Tag(t) => Look::Field(t.clone()),
            Token::CustomTag(t) => Look::Custom(t.clone()),
            _ => Look::Other,
        }
    }

    /// Passes the tag that the parser stands on.
    pub(crate) fn skip_tag(&mut self) -> (r: Result<(), ParseFault>)
        requires
            old(self).wf(),
        ensures
            final(self).wf(),
            final(self).input() == old(self).input(),
            match bare_tag(old(self).stream(), old(self).pos()) {
                Ok((_, k)) => r is Ok && final(self).pos() == k,
                Err(h) => r matches Err(e) && e@ == h.fault && final(self).pos() == h.at,
            },
    {
        let on_tag = match self.tokenizer.current() {
            Token::Tag(_) => true,
            Token::CustomTag(_) => true,
            _ => false,
        };
        if !on_tag {
            return Err(self.fault(FaultKind::UnexpectedToken));
        }
        self.advance();
        Ok(())
    }

    /// Grabs the value of the line whose tag the parser stands on, and moves
    /// on to the line after it.
    pub(crate) fn take_line_value(&mut self) -> (r: Result<String, ParseFault>)
        requires
            old(self).wf(),
        ensures
            final(self).wf(),
            final(self).input() == old(self).input(),
            agrees(r, final(self).pos(), line_value(old(self).stream(), old(self).pos())),
    {
        self.skip_tag()?;
        let value = match self.tokenizer.current() {
            Token::LineValue(v) => v.clone(),
            _ => {
                return Err(self.fault(FaultKind::UnexpectedToken));
            },
        };
        self.advance();
        Ok(value)
    }

    /// Reads the line of the custom tag `tag`, on which the parser stands.
    pub fn parse_custom_tag(&mut self, tag: String) -> (r: Result<CustomData, ParseFault>)
        requires
            old(self).wf(),
        ensures
            final(self).wf(),
            final(self).input() == old(self).input(),
            agrees(r, final(self).pos(), custom_data(old(self).stream(), old(self).pos(), tag@)),
    {
        let value = self.take_line_value()?;
        Ok(CustomData { tag, value })
    }

    /// Takes the pointer that the parser stands on, if it stands on one.
    fn take_pointer(&mut self) -> (r: Option<String>)
        requires
            old(self).wf(),
        ensures
            final(self).wf(),
            final(self).input() == old(self).input(),
            (view_of(r), final(self).pos()) == pointer(old(self).stream(), old(self).pos()),
    {
        let found = match self.tokenizer.current() {
            Token::Pointer(p) => Some(p.clone()),
            _ => None,
        };
        if found.is_some() {
            self.advance();
        }
        found
    }

    /// Passes over the record whose tag the parser stands on, up to the next
    /// line of depth 0.
    fn skip_record(&mut self)
        requires
            old(self).wf(),
            !old(self).here().is_terminal(),
        ensures
            final(self).wf(),
            final(self).input() == old(self).input(),
            final(self).pos() == skip_end(old(self).stream(), old(self).pos() + 1),
    {
        self.advance();
        loop
            invariant
                self.wf(),
                self.input() == old(self).input(),
                skip_end(old(self).stream(), old(self).pos() + 1) == skip_end(
                    self.stream(),
                    self.pos(),
                ),
            decreases self.stream().len() - self.pos(),
        {
            proof {
                self.lemma_wf();
            }
            let stop = match self.tokenizer.current() {
                Token::Level(n) => *n == 0,
                Token::Eof => true,
                Token::Invalid => true,
                _ => false,
            };
            if stop {
                return ;
            }
            self.advance();
            proof {
                self.lemma_wf();
            }
        }
    }

    /// Passes over the record whose tag `tag` the parser stands on, and notes
    /// in `notices` that it was not read.
    fn skip_unsupported(&mut self, tag: String, notices: &mut Vec<Notice>)
        requires
            old(self).wf(),
            !old(self).here().is_terminal(),
        ensures
            final(self).wf(),
            final(self).input() == old(self).input(),
            final(self).pos() == skip_end(old(self).stream(), old(self).pos() + 1),
            views(final(notices)@) == views(old(notices)@).push(
                unsupported(old(self).stream(), old(self).pos(), tag@),
            ),
    {
        let notice = Notice { kind: NoticeKind::Unsupported, line: self.line(), text: tag };
        self.skip_record();
        push_viewed(notices, notice);
    }

    /// Reads the document: its records up to the trailer. The result holds the
    /// records, and a notice for each record that was passed over and for each
    /// unexpected form. The first fault ends the parse.
    pub fn parse_record(&mut self) -> (r: Result<Noted<GedcomData>, ParseFault>)
        requires
            old(self).wf(),
        ensures
            final(self).wf(),
            final(self).input() == old(self).input(),
            agrees(
                r,
                final(self).pos(),
                document(old(self).stream(), old(self).pos(), plain(GedcomDataView::empty())),
            ),
    {
        let ghost goal = document(self.stream(), self.pos(), plain(GedcomDataView::empty()));
        let mut doc = Noted::new(GedcomData::new());
        loop
            invariant
                self.wf(),
                self.input() == old(self).input(),
                goal == document(
                    old(self).stream(),
                    old(self).pos(),
                    plain(GedcomDataView::empty()),
                ),
                goal == document(self.stream(), self.pos(), doc@),
            decreases self.stream().len() - self.pos(),
        {
            proof {
                self.lemma_wf();
            }
            let level = match self.tokenizer.current() {
                Token::Level(n) => *n,
                _ => {
                    return Err(self.fault(FaultKind::MissingLevel));
                },
            };
            if level != 0 {
                return Err(self.fault(FaultKind::UnexpectedToken));
            }
            self.advance();
            proof {
                self.lemma_wf();
            }
            let xref = self.take_pointer();
            proof {
                self.lemma_wf();
            }
            match self.look(level) {
                Look::Field(tag) => {
                    proof {
                        lemma_record(self.stream(), self.pos(), view_of(xref), tag@, doc@);
                        lemma_skip_end(self.stream(), self.pos() + 1);
                    }
                    if same_text(tag.as_str(), "TRLR") {
                        return Ok(doc);
                    } else if same_text(tag.as_str(), "HEAD") {
                        let header = self.parse_header()?;
                        doc.value.header = header.value;
                        append_viewed(&mut doc.notices, header.notices);
                    } else if same_text(tag.as_str(), "FAM") {
                        let family = self.parse_family(level, xref)?;
                        doc.value.add_family(family);
                    } else if same_text(tag.as_str(), "INDI") {
                        let individual = self.parse_individual(level, xref)?;
                        doc.value.add_individual(individual);
                    } else if same_text(tag.as_str(), "REPO") {
                        let repository = self.parse_repository(level, xref)?;
                        doc.value.add_repository(repository);
                    } else if same_text(tag.as_str(), "SOUR") {
                        let source = self.parse_source(level, xref)?;
                        doc.value.add_source(source);
                    } else if same_text(tag.as_str(), "SUBM") {
                        let submitter = self.parse_submitter(level, xref)?;
                        doc.value.add_submitter(submitter);
                    } else {
                        self.skip_unsupported(tag, &mut doc.notices);
                    }
                },
                Look::Custom(tag) => {
                    proof {
                        lemma_skip_end(self.stream(), self.pos() + 1);
                    }
                    self.skip_unsupported(tag, &mut doc.notices);
                },
                _ => {
                    return Err(self.fault(FaultKind::UnexpectedToken));
                },
            }
            proof {
                self.lemma_wf();
            }
        }
    }
}

} // verus!
