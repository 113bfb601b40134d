//! Sources, and texts that run over several lines.
use crate::event::{lemma_recorded_event, recorded_event, Event, EventView};
use crate::fault::{FaultKind, ParseFault};
use crate::grammar::{
    bare_tag, block, deeper, fault_at, lemma_block, line_value, on_tag, spans, then, Block, Halt,
    Outcome,
};
use crate::parser::{agrees, below, Look, Parser};
use crate::record::{
    continued, custom_pair, no_items, push_viewed, view_of, views, CustomData, CustomDataView,
};
use crate::text::{reference, reference_id, same_text};
use crate::token::{well_formed, Lexeme, TokenView};
use vstd::prelude::*;
use vstd::string::StringExecFns;

verus! {

/// A text that is being put together from its lines.
pub struct Text {
    pub chars: Seq<char>,
}

impl Block for Text {
    open spec fn field(s: Seq<Lexeme>, floor: u8, acc: Self, j: int) -> Outcome<Self> {
        match s[j].token {
            TokenView::Tag(t) => if t == "CONT"@ {
                then(
                    line_value(s, j),
                    |v: Seq<char>| Text { chars: continued(Some(acc.chars), '\n', v) },
                )
            } else if t == "CONC"@ {
                then(
                    line_value(s, j),
                    |v: Seq<char>| Text { chars: continued(Some(acc.chars), ' ', v) },
                )
            } else {
                Err(fault_at(s, j, FaultKind::UnknownField))
            },
            _ => Err(fault_at(s, j, FaultKind::UnexpectedToken)),
        }
    }

    proof fn lemma_field(s: Seq<Lexeme>, floor: u8, acc: Self, j: int) {
    }
}

/// The characters of a text that was put together.
pub open spec fn finished(o: Outcome<Text>) -> Outcome<Seq<char>> {
    then(o, |t: Text| t.chars)
}

/// The text that the line at `i` begins. A `CONT` line below it goes on in a
/// new line, a `CONC` line after a blank.
pub open spec fn continued_text(s: Seq<Lexeme>, i: int, floor: u8) -> Outcome<Seq<char>> {
    match line_value(s, i) {
        Ok((v, k)) => finished(block(s, k, floor, Text { chars: v })),
        Err(e) => Err(e),
    }
}

/// What is read from `i` on ends at the first level that is no deeper than `floor`,
/// or at the end of the input: at what follows the text, and not before.
pub proof fn lemma_continued_text(s: Seq<Lexeme>, i: int, floor: u8)
    requires
        well_formed(s),
        0 <= i < s.len(),
    ensures
        continued_text(s, i, floor) matches Ok((_, k)) ==> spans(s, i, k, floor),
{
    if let Ok((v, k)) = line_value(s, i) {
        lemma_block(s, k, floor, Text { chars: v });
    }
}

/// A value that is followed by one `CONT` line and one `CONC` line becomes the
/// value, a line feed, the first line, a blank and the second line, in this
/// order and whatever the three hold.
pub proof fn lemma_continuation(
    s: Seq<Lexeme>,
    i: int,
    floor: u8,
    value: Seq<char>,
    cont: Seq<char>,
    conc: Seq<char>,
)
    requires
        well_formed(s),
        0 <= i,
        i + 8 < s.len(),
        on_tag(s, i),
        s[i + 1].token == TokenView::LineValue(value),
        s[i + 2].token matches TokenView::Level(n) && n > floor,
        s[i + 3].token == TokenView::Tag("CONT"@),
        s[i + 4].token == TokenView::LineValue(cont),
        s[i + 5].token matches TokenView::Level(n) && n > floor,
        s[i + 6].token == TokenView::Tag("CONC"@),
        s[i + 7].token == TokenView::LineValue(conc),
        s[i + 8].token.closes(floor),
    ensures
        continued_text(s, i, floor) == Ok::<(Seq<char>, int), Halt>(
            (value + seq!['\n'] + cont + seq![' '] + conc, i + 8),
        ),
{
    reveal_strlit("CONT");
    reveal_strlit("CONC");
    assert("CONT"@[3] != "CONC"@[3]);
    let first = Text { chars: value };
    let second = Text { chars: continued(Some(value), '\n', cont) };
    let third = Text { chars: continued(Some(second.chars), ' ', conc) };
    assert(block(s, i + 8, floor, third) == Ok::<(Text, int), Halt>((third, i + 8)));
    assert(block(s, i + 5, floor, second) == block(s, i + 8, floor, third)) by {
        assert(block(s, i + 6, floor, second) == block(s, i + 8, floor, third));
    }
    assert(block(s, i + 2, floor, first) == block(s, i + 5, floor, second)) by {
        assert(block(s, i + 3, floor, first) == block(s, i + 5, floor, second));
    }
    assert(third.chars =~= value + seq!['\n'] + cont + seq![' '] + conc);
}

impl Parser {
    /// Takes the value of the line on which the parser stands, together with
    /// the `CONT` and `CONC` lines that continue it.
    pub(crate) fn take_continued_text(&mut self, level: u8) -> (r: Result<String, ParseFault>)
        requires
            old(self).wf(),
        ensures
            final(self).wf(),
            final(self).input() == old(self).input(),
            agrees(
                r,
                final(self).pos(),
                continued_text(old(self).stream(), old(self).pos(), level),
            ),
            r is Ok ==> spans(old(self).stream(), old(self).pos(), final(self).pos(), level),
    {
        let ghost goal = continued_text(self.stream(), self.pos(), level);
        proof {
            self.lemma_wf();
            lemma_continued_text(self.stream(), self.pos(), level);
        }
        let mut value = self.take_line_value()?;
        loop
            invariant
                self.wf(),
                self.input() == old(self).input(),
                goal == continued_text(old(self).stream(), old(self).pos(), level),
                goal == finished(block(self.stream(), self.pos(), level, Text { chars: value@ })),
                goal matches Ok((_, k)) ==> spans(old(self).stream(), old(self).pos(), k, level),
            decreases self.stream().len() - self.pos(),
        {
            proof {
                self.lemma_wf();
            }
            match self.look(level) {
                Look::Close => {
                    return Ok(value);
                },
                Look::Deeper => {
                    self.advance();
                },
                Look::Field(tag) => {
                    if same_text(tag.as_str(), "CONT") {
                        let line = self.take_line_value()?;
                        value.push('\n');
                        value.append(line.as_str());
                    } else if same_text(tag.as_str(), "CONC") {
                        let line = self.take_line_value()?;
                        value.push(' ');
                        value.append(line.as_str());
                    } else {
                        return Err(self.fault(FaultKind::UnknownField));
                    }
                },
                _ => {
                    return Err(self.fault(FaultKind::UnexpectedToken));
                },
            }
        }
    }
}

/// A reference to the repository that keeps a source, with the call number there.
#[derive(Clone, Debug, PartialEq, Eq)]
pub struct RepoCitation {
    pub xref: String,
    pub call_number: Option<String>,
    pub custom_data: Vec<CustomData>,
}

/// [`RepoCitation`] as a mathematical value.
pub struct RepoCitationView {
    pub xref: Seq<char>,
    pub call_number: Option<Seq<char>>,
    pub custom_data: Seq<CustomDataView>,
}

impl View for RepoCitation {
    type V = RepoCitationView;

    open spec fn view(&self) -> RepoCitationView {
        RepoCitationView {
            xref: self.xref@,
            call_number: view_of(self.call_number),
            custom_data: views(self.custom_data@),
        }
    }
}

impl RepoCitationView {
    /// The record with nothing read into it yet.
    pub open spec fn empty(xref: Seq<char>) -> RepoCitationView {
        RepoCitationView {
            xref: xref,
            call_number: None,
            custom_data: Seq::empty(),
        }
    }
}

impl RepoCitation {
    /// The record with nothing read into it yet.
    pub fn new(xref: String) -> (r: RepoCitation)
        ensures
            r@ == RepoCitationView::empty(xref@),
    {
        RepoCitation {
            xref: xref,
            call_number: None,
            custom_data: no_items(),
        }
    }
}

impl Block for RepoCitationView {
    open spec fn field(s: Seq<Lexeme>, floor: u8, acc: Self, j: int) -> Outcome<Self> {
        match s[j].token {
            TokenView::Tag(t) => if t == "CALN"@ {
                then(
                    line_value(s, j),
                    |v: Seq<char>| RepoCitationView { call_number: Some(v), ..acc },
                )
            } else {
                Err(fault_at(s, j, FaultKind::UnknownField))
            },
            _ => then(
                custom_pair(s, j),
                |c: CustomDataView|
                    RepoCitationView { custom_data: acc.custom_data.push(c), ..acc },
            ),
        }
    }

    proof fn lemma_field(s: Seq<Lexeme>, floor: u8, acc: Self, j: int) {
    }
}

/// The reference that the `REPO` line at `i` introduces. The value of the line is
/// the identifier of the repository.
pub open spec fn repo_citation(s: Seq<Lexeme>, i: int, floor: u8) -> Outcome<RepoCitationView> {
    match line_value(s, i) {
        Ok((v, k)) => block(s, k, floor, RepoCitationView::empty(reference(v))),
        Err(e) => Err(e),
    }
}

/// What is read from `i` on ends at the first level that is no deeper than `floor`,
/// or at the end of the input: at what follows the record, and not before.
pub proof fn lemma_repo_citation(s: Seq<Lexeme>, i: int, floor: u8)
    requires
        well_formed(s),
        0 <= i < s.len(),
    ensures
        repo_citation(s, i, floor) matches Ok((_, k)) ==> spans(s, i, k, floor),
{
    if let Ok((v, k)) = line_value(s, i) {
        lemma_block(s, k, floor, RepoCitationView::empty(reference(v)));
    }
}

impl Parser {
    /// Reads the reference to a repository that the `REPO` line introduces on which the
    /// parser stands.
    pub(crate) fn parse_repo_citation(&mut self, level: u8) -> (r: Result<RepoCitation, ParseFault>)
        requires
            old(self).wf(),
        ensures
            final(self).wf(),
            final(self).input() == old(self).input(),
            agrees(r, final(self).pos(), repo_citation(old(self).stream(), old(self).pos(), level)),
            r is Ok ==> spans(old(self).stream(), old(self).pos(), final(self).pos(), level),
    {
        let ghost goal = repo_citation(self.stream(), self.pos(), level);
        proof {
            self.lemma_wf();
            lemma_repo_citation(self.stream(), self.pos(), level);
        }
        let value = self.take_line_value()?;
        let mut record = RepoCitation::new(reference_id(value));
        loop
            invariant
                self.wf(),
                self.input() == old(self).input(),
                goal == repo_citation(old(self).stream(), old(self).pos(), level),
                goal == block(self.stream(), self.pos(), level, record@),
                goal matches Ok((_, k)) ==> spans(old(self).stream(), old(self).pos(), k, level),
            decreases self.stream().len() - self.pos(),
        {
            proof {
                self.lemma_wf();
            }
            match self.look(level) {
                Look::Close => {
                    return Ok(record);
                },
                Look::Deeper => {
                    self.advance();
                },
                Look::Field(tag) => {
                    if same_text(tag.as_str(), "CALN") {
                        record.call_number = Some(self.take_line_value()?);
                    } else {
                        return Err(self.fault(FaultKind::UnknownField));
                    }
                },
                Look::Custom(tag) => {
                    let pair = self.parse_custom_tag(tag)?;
                    push_viewed(&mut record.custom_data, pair);
                },
                Look::Other => {
                    return Err(self.fault(FaultKind::UnexpectedToken));
                },
            }
            proof {
                self.lemma_wf();
            }
        }
    }
}

/// What a source records: the events, and who recorded them.
#[derive(Clone, Debug, PartialEq, Eq)]
pub struct SourceData {
    pub events: Vec<Event>,
    pub agency: Option<String>,
}

/// [`SourceData`] as a mathematical value.
pub struct SourceDataView {
    pub events: Seq<EventView>,
    pub agency: Option<Seq<char>>,
}

impl View for SourceData {
    type V = SourceDataView;

    open spec fn view(&self) -> SourceDataView {
        SourceDataView {
            events: views(self.events@),
            agency: view_of(self.agency),
        }
    }
}

impl SourceDataView {
    /// The record with nothing read into it yet.
    pub open spec fn empty() -> SourceDataView {
        SourceDataView {
            events: Seq::empty(),
            agency: None,
        }
    }
}

impl SourceData {
    /// The record with nothing read into it yet.
    pub fn new() -> (r: SourceData)
        ensures
            r@ == SourceDataView::empty(),
    {
        SourceData {
            events: no_items(),
            agency: None,
        }
    }
}

/// A source of information.
#[derive(Clone, Debug, PartialEq, Eq)]
pub struct Source {
    pub xref: Option<String>,
    pub data: SourceData,
    pub abbreviation: Option<String>,
    pub title: Option<String>,
    pub repo_citations: Vec<RepoCitation>,
    pub custom_data: Vec<CustomData>,
}

/// [`Source`] as a mathematical value.
pub struct SourceView {
    pub xref: Option<Seq<char>>,
    pub data: SourceDataView,
    pub abbreviation: Option<Seq<char>>,
    pub title: Option<Seq<char>>,
    pub repo_citations: Seq<RepoCitationView>,
    pub custom_data: Seq<CustomDataView>,
}

impl View for Source {
    type V = SourceView;

    open spec fn view(&self) -> SourceView {
        SourceView {
            xref: view_of(self.xref),
            data: self.data@,
            abbreviation: view_of(self.abbreviation),
            title: view_of(self.title),
            repo_citations: views(self.repo_citations@),
            custom_data: views(self.custom_data@),
        }
    }
}

impl SourceView {
    /// The record with nothing read into it yet.
    pub open spec fn empty(xref: Option<Seq<char>>) -> SourceView {
        SourceView {
            xref: xref,
            data: SourceDataView::empty(),
            abbreviation: None,
            title: None,
            repo_citations: Seq::empty(),
            custom_data: Seq::empty(),
        }
    }
}

impl Source {
    /// The record with nothing read into it yet.
    pub fn new(xref: Option<String>) -> (r: Source)
        ensures
            r@ == SourceView::empty(view_of(xref)),
    {
        Source {
            xref: xref,
            data: SourceData::new(),
            abbreviation: None,
            title: None,
            repo_citations: no_items(),
            custom_data: no_items(),
        }
    }
}

impl Block for SourceView {
    open spec fn field(s: Seq<Lexeme>, floor: u8, acc: Self, j: int) -> Outcome<Self> {
        match s[j].token {
            TokenView::Tag(t) => if t == "DATA"@ {
                then(bare_tag(s, j), |u: ()| acc)
            } else if t == "EVEN"@ {
                then(
                    recorded_event(s, j, deeper(deeper(floor))),
                    |v: EventView|
                        SourceView {
                            data: SourceDataView { events: acc.data.events.push(v), ..acc.data },
                            ..acc
                        },
                )
            } else if t == "AGNC"@ {
                then(
                    line_value(s, j),
                    |v: Seq<char>|
                        SourceView { data: SourceDataView { agency: Some(v), ..acc.data }, ..acc },
                )
            } else if t == "ABBR"@ {
                then(
                    continued_text(s, j, deeper(floor)),
                    |v: Seq<char>| SourceView { abbreviation: Some(v), ..acc },
                )
            } else if t == "TITL"@ {
                then(
                    continued_text(s, j, deeper(floor)),
                    |v: Seq<char>| SourceView { title: Some(v), ..acc },
                )
            } else if t == "REPO"@ {
                then(
                    repo_citation(s, j, deeper(floor)),
                    |v: RepoCitationView|
                        SourceView { repo_citations: acc.repo_citations.push(v), ..acc },
                )
            } else {
                Err(fault_at(s, j, FaultKind::UnknownField))
            },
            _ => then(
                custom_pair(s, j),
                |c: CustomDataView| SourceView { custom_data: acc.custom_data.push(c), ..acc },
            ),
        }
    }

    proof fn lemma_field(s: Seq<Lexeme>, floor: u8, acc: Self, j: int) {
        lemma_recorded_event(s, j, deeper(deeper(floor)));
        lemma_continued_text(s, j, deeper(floor));
        lemma_repo_citation(s, j, deeper(floor));
    }
}

/// The source that the `SOUR` line at `i` introduces, with the pointer `xref`.
pub open spec fn source(
    s: Seq<Lexeme>,
    i: int,
    xref: Option<Seq<char>>,
    floor: u8,
) -> Outcome<SourceView> {
    match bare_tag(s, i) {
        Ok((_, k)) => block(s, k, floor, SourceView::empty(xref)),
        Err(e) => Err(e),
    }
}

/// What is read from `i` on ends at the first level that is no deeper than `floor`,
/// or at the end of the input: at what follows the record, and not before.
pub proof fn lemma_source(s: Seq<Lexeme>, i: int, xref: Option<Seq<char>>, floor: u8)
    requires
        well_formed(s),
        0 <= i < s.len(),
    ensures
        source(s, i, xref, floor) matches Ok((_, k)) ==> spans(s, i, k, floor),
{
    if let Ok((_, k)) = bare_tag(s, i) {
        lemma_block(s, k, floor, SourceView::empty(xref));
    }
}

impl Parser {
    /// Reads the source that the `SOUR` line introduces on which the parser stands.
    pub(crate) fn parse_source(
        &mut self,
        level: u8,
        xref: Option<String>,
    ) -> (r: Result<Source, ParseFault>)
        requires
            old(self).wf(),
        ensures
            final(self).wf(),
            final(self).input() == old(self).input(),
            agrees(
                r,
                final(self).pos(),
                source(old(self).stream(), old(self).pos(), view_of(xref), level),
            ),
            r is Ok ==> spans(old(self).stream(), old(self).pos(), final(self).pos(), level),
    {
        let ghost goal = source(self.stream(), self.pos(), view_of(xref), level);
        proof {
            self.lemma_wf();
            lemma_source(self.stream(), self.pos(), view_of(xref), level);
        }
        self.skip_tag()?;
        let mut record = Source::new(xref);
        loop
            invariant
                self.wf(),
                self.input() == old(self).input(),
                goal == source(old(self).stream(), old(self).pos(), view_of(xref), level),
                goal == block(self.stream(), self.pos(), level, record@),
                goal matches Ok((_, k)) ==> spans(old(self).stream(), old(self).pos(), k, level),
            decreases self.stream().len() - self.pos(),
        {
            proof {
                self.lemma_wf();
            }
            match self.look(level) {
                Look::Close => {
                    return Ok(record);
                },
                Look::Deeper => {
                    self.advance();
                },
                Look::Field(tag) => {
                    if same_text(tag.as_str(), "DATA") {
                        self.skip_tag()?;
                    } else if same_text(tag.as_str(), "EVEN") {
                        let item = self.parse_recorded_event(below(below(level)))?;
                        push_viewed(&mut record.data.events, item);
                    } else if same_text(tag.as_str(), "AGNC") {
                        record.data.agency = Some(self.take_line_value()?);
                    } else if same_text(tag.as_str(), "ABBR") {
                        record.abbreviation = Some(self.take_continued_text(below(level))?);
                    } else if same_text(tag.as_str(), "TITL") {
                        record.title = Some(self.take_continued_text(below(level))?);
                    } else if same_text(tag.as_str(), "REPO") {
                        let item = self.parse_repo_citation(below(level))?;
                        push_viewed(&mut record.repo_citations, item);
                    } else {
                        return Err(self.fault(FaultKind::UnknownField));
                    }
                },
                Look::Custom(tag) => {
                    let pair = self.parse_custom_tag(tag)?;
                    push_viewed(&mut record.custom_data, pair);
                },
                Look::Other => {
                    return Err(self.fault(FaultKind::UnexpectedToken));
                },
            }
            proof {
                self.lemma_wf();
            }
        }
    }
}

} // verus!
