//! Events, and the sources they are known from.
use crate::fault::{FaultKind, ParseFault};
use crate::grammar::{
    bare_tag, block, deeper, fault_at, lemma_block, line_value, spans, then, Block, Outcome,
};
use crate::parser::{agrees, below, Look, Parser};
use crate::record::{
    custom_pair, no_items, push_viewed, view_of, views, CustomData, CustomDataView,
};
use crate::text::{reference, reference_id, same_text};
use crate::token::{well_formed, Lexeme, TokenView};
use vstd::prelude::*;

verus! {

/// What kind of event a record tells of.
#[derive(Clone, Debug, PartialEq, Eq)]
pub enum EventType {
    Adoption,
    Birth,
    Baptism,
    BarMitzvah,
    BasMitzvah,
    Blessing,
    Burial,
    Census,
    Christening,
    AdultChristening,
    Confirmation,
    Cremation,
    Death,
    Emigration,
    FirstCommunion,
    Graduation,
    Immigration,
    Naturalization,
    Ordination,
    Retirement,
    Residence,
    Probate,
    Will,
    Marriage,
    /// An event of a kind that has no name of its own.
    Other,
    /// The events that a source records, as the source lists them.
    SourceData(String),
}

pub enum EventTypeView {
    Adoption,
    Birth,
    Baptism,
    BarMitzvah,
    BasMitzvah,
    Blessing,
    Burial,
    Census,
    Christening,
    AdultChristening,
    Confirmation,
    Cremation,
    Death,
    Emigration,
    FirstCommunion,
    Graduation,
    Immigration,
    Naturalization,
    Ordination,
    Retirement,
    Residence,
    Probate,
    Will,
    Marriage,
    Other,
    SourceData(Seq<char>),
}

impl View for EventType {
    type V = EventTypeView;

    open spec fn view(&self) -> EventTypeView {
        match self {
            EventType::Adoption => EventTypeView::Adoption,
            EventType::Birth => EventTypeView::Birth,
            EventType::Baptism => EventTypeView::Baptism,
            EventType::BarMitzvah => EventTypeView::BarMitzvah,
            EventType::BasMitzvah => EventTypeView::BasMitzvah,
            EventType::Blessing => EventTypeView::Blessing,
            EventType::Burial => EventTypeView::Burial,
            EventType::Census => EventTypeView::Census,
            EventType::Christening => EventTypeView::Christening,
            EventType::AdultChristening => EventTypeView::AdultChristening,
            EventType::Confirmation => EventTypeView::Confirmation,
            EventType::Cremation => EventTypeView::Cremation,
            EventType::Death => EventTypeView::Death,
            EventType::Emigration => EventTypeView::Emigration,
            EventType::FirstCommunion => EventTypeView::FirstCommunion,
            EventType::Graduation => EventTypeView::Graduation,
            EventType::Immigration => EventTypeView::Immigration,
            EventType::Naturalization => EventTypeView::Naturalization,
            EventType::Ordination => EventTypeView::Ordination,
            EventType::Retirement => EventTypeView::Retirement,
            EventType::Residence => EventTypeView::Residence,
            EventType::Probate => EventTypeView::Probate,
            EventType::Will => EventTypeView::Will,
            EventType::Marriage => EventTypeView::Marriage,
            EventType::Other => EventTypeView::Other,
            EventType::SourceData(s) => EventTypeView::SourceData(s@),
        }
    }
}

/// The kind of event that the tag `tag` introduces.
pub open spec fn event_type(tag: Seq<char>) -> EventTypeView {
    if tag == "ADOP"@ {
        EventTypeView::Adoption
    } else if tag == "BIRT"@ {
        EventTypeView::Birth
    } else if tag == "BAPM"@ {
        EventTypeView::Baptism
    } else if tag == "BARM"@ {
        EventTypeView::BarMitzvah
    } else if tag == "BASM"@ {
        EventTypeView::BasMitzvah
    } else if tag == "BLES"@ {
        EventTypeView::Blessing
    } else if tag == "BURI"@ {
        EventTypeView::Burial
    } else if tag == "CENS"@ {
        EventTypeView::Census
    } else if tag == "CHR"@ {
        EventTypeView::Christening
    } else if tag == "CHRA"@ {
        EventTypeView::AdultChristening
    } else if tag == "CONF"@ {
        EventTypeView::Confirmation
    } else if tag == "CREM"@ {
        EventTypeView::Cremation
    } else if tag == "DEAT"@ {
        EventTypeView::Death
    } else if tag == "EMIG"@ {
        EventTypeView::Emigration
    } else if tag == "FCOM"@ {
        EventTypeView::FirstCommunion
    } else if tag == "GRAD"@ {
        EventTypeView::Graduation
    } else if tag == "IMMI"@ {
        EventTypeView::Immigration
    } else if tag == "NATU"@ {
        EventTypeView::Naturalization
    } else if tag == "ORDN"@ {
        EventTypeView::Ordination
    } else if tag == "RETI"@ {
        EventTypeView::Retirement
    } else if tag == "RESI"@ {
        EventTypeView::Residence
    } else if tag == "PROB"@ {
        EventTypeView::Probate
    } else if tag == "WILL"@ {
        EventTypeView::Will
    } else if tag == "MARR"@ {
        EventTypeView::Marriage
    } else {
        EventTypeView::Other
    }
}

impl EventType {
    /// The kind of event that the tag `tag` introduces.
    pub fn from_tag(tag: &str) -> (r: EventType)
        ensures
            r@ == event_type(tag@),
    {
        if same_text(tag, "ADOP") {
            EventType::Adoption
        } else if same_text(tag, "BIRT") {
            EventType::Birth
        } else if same_text(tag, "BAPM") {
            EventType::Baptism
        } else if same_text(tag, "BARM") {
            EventType::BarMitzvah
        } else if same_text(tag, "BASM") {
            EventType::BasMitzvah
        } else if same_text(tag, "BLES") {
            EventType::Blessing
        } else if same_text(tag, "BURI") {
            EventType::Burial
        } else if same_text(tag, "CENS") {
            EventType::Census
        } else if same_text(tag, "CHR") {
            EventType::Christening
        } else if same_text(tag, "CHRA") {
            EventType::AdultChristening
        } else if same_text(tag, "CONF") {
            EventType::Confirmation
        } else if same_text(tag, "CREM") {
            EventType::Cremation
        } else if same_text(tag, "DEAT") {
            EventType::Death
        } else if same_text(tag, "EMIG") {
            EventType::Emigration
        } else if same_text(tag, "FCOM") {
            EventType::FirstCommunion
        } else if same_text(tag, "GRAD") {
            EventType::Graduation
        } else if same_text(tag, "IMMI") {
            EventType::Immigration
        } else if same_text(tag, "NATU") {
            EventType::Naturalization
        } else if same_text(tag, "ORDN") {
            EventType::Ordination
        } else if same_text(tag, "RETI") {
            EventType::Retirement
        } else if same_text(tag, "RESI") {
            EventType::Residence
        } else if same_text(tag, "PROB") {
            EventType::Probate
        } else if same_text(tag, "WILL") {
            EventType::Will
        } else if same_text(tag, "MARR") {
            EventType::Marriage
        } else {
            EventType::Other
        }
    }
}

/// A reference to a source, with the place in it that is meant.
#[derive(Clone, Debug, PartialEq, Eq)]
pub struct SourceCitation {
    pub xref: String,
    pub page: Option<String>,
    pub custom_data: Vec<CustomData>,
}

/// [`SourceCitation`] as a mathematical value.
pub struct SourceCitationView {
    pub xref: Seq<char>,
    pub page: Option<Seq<char>>,
    pub custom_data: Seq<CustomDataView>,
}

impl View for SourceCitation {
    type V = SourceCitationView;

    open spec fn view(&self) -> SourceCitationView {
        SourceCitationView {
            xref: self.xref@,
            page: view_of(self.page),
            custom_data: views(self.custom_data@),
        }
    }
}

impl SourceCitationView {
    /// The record with nothing read into it yet.
    pub open spec fn empty(xref: Seq<char>) -> SourceCitationView {
        SourceCitationView {
            xref: xref,
            page: None,
            custom_data: Seq::empty(),
        }
    }
}

impl SourceCitation {
    /// The record with nothing read into it yet.
    pub fn new(xref: String) -> (r: SourceCitation)
        ensures
            r@ == SourceCitationView::empty(xref@),
    {
        SourceCitation {
            xref: xref,
            page: None,
            custom_data: no_items(),
        }
    }
}

impl Block for SourceCitationView {
    open spec fn field(s: Seq<Lexeme>, floor: u8, acc: Self, j: int) -> Outcome<Self> {
        match s[j].token {
            TokenView::Tag(t) => if t == "PAGE"@ {
                then(line_value(s, j), |v: Seq<char>| SourceCitationView { page: Some(v), ..acc })
            } else {
                Err(fault_at(s, j, FaultKind::UnknownField))
            },
            _ => then(
                custom_pair(s, j),
                |c: CustomDataView|
                    SourceCitationView { custom_data: acc.custom_data.push(c), ..acc },
            ),
        }
    }

    proof fn lemma_field(s: Seq<Lexeme>, floor: u8, acc: Self, j: int) {
    }
}

/// The citation that the `SOUR` line at `i` introduces. The value of the line is
/// the identifier of the source.
pub open spec fn citation(s: Seq<Lexeme>, i: int, floor: u8) -> Outcome<SourceCitationView> {
    match line_value(s, i) {
        Ok((v, k)) => block(s, k, floor, SourceCitationView::empty(reference(v))),
        Err(e) => Err(e),
    }
}

/// What is read from `i` on ends at the first level that is no deeper than `floor`,
/// or at the end of the input: at what follows the record, and not before.
pub proof fn lemma_citation(s: Seq<Lexeme>, i: int, floor: u8)
    requires
        well_formed(s),
        0 <= i < s.len(),
    ensures
        citation(s, i, floor) matches Ok((_, k)) ==> spans(s, i, k, floor),
{
    if let Ok((v, k)) = line_value(s, i) {
        lemma_block(s, k, floor, SourceCitationView::empty(reference(v)));
    }
}

impl Parser {
    /// Reads the citation that the `SOUR` line introduces on which the parser stands.
    pub(crate) fn parse_citation(&mut self, level: u8) -> (r: Result<SourceCitation, ParseFault>)
        requires
            old(self).wf(),
        ensures
            final(self).wf(),
            final(self).input() == old(self).input(),
            agrees(r, final(self).pos(), citation(old(self).stream(), old(self).pos(), level)),
            r is Ok ==> spans(old(self).stream(), old(self).pos(), final(self).pos(), level),
    {
        let ghost goal = citation(self.stream(), self.pos(), level);
        proof {
            self.lemma_wf();
            lemma_citation(self.stream(), self.pos(), level);
        }
        let value = self.take_line_value()?;
        let mut record = SourceCitation::new(reference_id(value));
        loop
            invariant
                self.wf(),
                self.input() == old(self).input(),
                goal == citation(old(self).stream(), old(self).pos(), level),
                goal == block(self.stream(), self.pos(), level, record@),
                goal matches Ok((_, k)) ==> spans(old(self).stream(), old(self).pos(), k, level),
            decreases self.stream().len() - self.pos(),
        {
            proof {
                self.lemma_wf();
            }
            match self.look(level) {
                Look::Close => {
                    return Ok(record);
                },
                Look::Deeper => {
                    self.advance();
                },
                Look::Field(tag) => {
                    if same_text(tag.as_str(), "PAGE") {
                        record.page = Some(self.take_line_value()?);
                    } else {
                        return Err(self.fault(FaultKind::UnknownField));
                    }
                },
                Look::Custom(tag) => {
                    let pair = self.parse_custom_tag(tag)?;
                    push_viewed(&mut record.custom_data, pair);
                },
                Look::Other => {
                    return Err(self.fault(FaultKind::UnexpectedToken));
                },
            }
            proof {
                self.lemma_wf();
            }
        }
    }
}

/// An event in the life of a person or a family.
#[derive(Clone, Debug, PartialEq, Eq)]
pub struct Event {
    pub event: EventType,
    pub date: Option<String>,
    pub place: Option<String>,
    pub citations: Vec<SourceCitation>,
    pub custom_data: Vec<CustomData>,
}

/// [`Event`] as a mathematical value.
pub struct EventView {
    pub event: EventTypeView,
    pub date: Option<Seq<char>>,
    pub place: Option<Seq<char>>,
    pub citations: Seq<SourceCitationView>,
    pub custom_data: Seq<CustomDataView>,
}

impl View for Event {
    type V = EventView;

    open spec fn view(&self) -> EventView {
        EventView {
            event: self.event@,
            date: view_of(self.date),
            place: view_of(self.place),
            citations: views(self.citations@),
            custom_data: views(self.custom_data@),
        }
    }
}

impl EventView {
    /// The record with nothing read into it yet.
    pub open spec fn empty(event: EventTypeView) -> EventView {
        EventView {
            event: event,
            date: None,
            place: None,
            citations: Seq::empty(),
            custom_data: Seq::empty(),
        }
    }
}

impl Event {
    /// The record with nothing read into it yet.
    pub fn new(event: EventType) -> (r: Event)
        ensures
            r@ == EventView::empty(event@),
    {
        Event {
            event: event,
            date: None,
            place: None,
            citations: no_items(),
            custom_data: no_items(),
        }
    }
}

impl Block for EventView {
    open spec fn field(s: Seq<Lexeme>, floor: u8, acc: Self, j: int) -> Outcome<Self> {
        match s[j].token {
            TokenView::Tag(t) => if t == "DATE"@ {
                then(line_value(s, j), |v: Seq<char>| EventView { date: Some(v), ..acc })
            } else if t == "PLAC"@ {
                then(line_value(s, j), |v: Seq<char>| EventView { place: Some(v), ..acc })
            } else if t == "SOUR"@ {
                then(
                    citation(s, j, deeper(floor)),
                    |v: SourceCitationView| EventView { citations: acc.citations.push(v), ..acc },
                )
            } else {
                Err(fault_at(s, j, FaultKind::UnknownField))
            },
            _ => then(
                custom_pair(s, j),
                |c: CustomDataView| EventView { custom_data: acc.custom_data.push(c), ..acc },
            ),
        }
    }

    proof fn lemma_field(s: Seq<Lexeme>, floor: u8, acc: Self, j: int) {
        lemma_citation(s, j, deeper(floor));
    }
}

/// The event that the line at `i` introduces, whose tag is `tag`.
pub open spec fn event(s: Seq<Lexeme>, i: int, tag: Seq<char>, floor: u8) -> Outcome<EventView> {
    match bare_tag(s, i) {
        Ok((_, k)) => block(s, k, floor, EventView::empty(event_type(tag))),
        Err(e) => Err(e),
    }
}

/// What is read from `i` on ends at the first level that is no deeper than `floor`,
/// or at the end of the input: at what follows the record, and not before.
pub proof fn lemma_event(s: Seq<Lexeme>, i: int, tag: Seq<char>, floor: u8)
    requires
        well_formed(s),
        0 <= i < s.len(),
    ensures
        event(s, i, tag, floor) matches Ok((_, k)) ==> spans(s, i, k, floor),
{
    if let Ok((_, k)) = bare_tag(s, i) {
        lemma_block(s, k, floor, EventView::empty(event_type(tag)));
    }
}

impl Parser {
    /// Reads the event that the line introduces on which the parser stands. `tag` is
    /// the tag of that line.
    pub(crate) fn parse_event(&mut self, tag: &str, level: u8) -> (r: Result<Event, ParseFault>)
        requires
            old(self).wf(),
        ensures
            final(self).wf(),
            final(self).input() == old(self).input(),
            agrees(r, final(self).pos(), event(old(self).stream(), old(self).pos(), tag@, level)),
            r is Ok ==> spans(old(self).stream(), old(self).pos(), final(self).pos(), level),
    {
        let ghost goal = event(self.stream(), self.pos(), tag@, level);
        proof {
            self.lemma_wf();
            lemma_event(self.stream(), self.pos(), tag@, level);
        }
        self.skip_tag()?;
        let mut record = Event::new(EventType::from_tag(tag));
        loop
            invariant
                self.wf(),
                self.input() == old(self).input(),
                goal == event(old(self).stream(), old(self).pos(), tag@, level),
                goal == block(self.stream(), self.pos(), level, record@),
                goal matches Ok((_, k)) ==> spans(old(self).stream(), old(self).pos(), k, level),
            decreases self.stream().len() - self.pos(),
        {
            proof {
                self.lemma_wf();
            }
            match self.look(level) {
                Look::Close => {
                    return Ok(record);
                },
                Look::Deeper => {
                    self.advance();
                },
                Look::Field(tag) => {
                    if same_text(tag.as_str(), "DATE") {
                        record.date = Some(self.take_line_value()?);
                    } else if same_text(tag.as_str(), "PLAC") {
                        record.place = Some(self.take_line_value()?);
                    } else if same_text(tag.as_str(), "SOUR") {
                        let item = self.parse_citation(below(level))?;
                        push_viewed(&mut record.citations, item);
                    } else {
                        return Err(self.fault(FaultKind::UnknownField));
                    }
                },
                Look::Custom(tag) => {
                    let pair = self.parse_custom_tag(tag)?;
                    push_viewed(&mut record.custom_data, pair);
                },
                Look::Other => {
                    return Err(self.fault(FaultKind::UnexpectedToken));
                },
            }
            proof {
                self.lemma_wf();
            }
        }
    }
}

/// The events that a source records, which the `EVEN` line at `i` introduces. The
/// value of the line lists them.
pub open spec fn recorded_event(s: Seq<Lexeme>, i: int, floor: u8) -> Outcome<EventView> {
    match line_value(s, i) {
        Ok((v, k)) => block(s, k, floor, EventView::empty(EventTypeView::SourceData(v))),
        Err(e) => Err(e),
    }
}

/// What is read from `i` on ends at the first level that is no deeper than `floor`,
/// or at the end of the input: at what follows the record, and not before.
pub proof fn lemma_recorded_event(s: Seq<Lexeme>, i: int, floor: u8)
    requires
        well_formed(s),
        0 <= i < s.len(),
    ensures
        recorded_event(s, i, floor) matches Ok((_, k)) ==> spans(s, i, k, floor),
{
    if let Ok((v, k)) = line_value(s, i) {
        lemma_block(s, k, floor, EventView::empty(EventTypeView::SourceData(v)));
    }
}

impl Parser {
    /// Reads what the `EVEN` line of a source introduces on which the parser stands.
    pub(crate) fn parse_recorded_event(&mut self, level: u8) -> (r: Result<Event, ParseFault>)
        requires
            old(self).wf(),
        ensures
            final(self).wf(),
            final(self).input() == old(self).input(),
            agrees(
                r,
                final(self).pos(),
                recorded_event(old(self).stream(), old(self).pos(), level),
            ),
            r is Ok ==> spans(old(self).stream(), old(self).pos(), final(self).pos(), level),
    {
        let ghost goal = recorded_event(self.stream(), self.pos(), level);
        proof {
            self.lemma_wf();
            lemma_recorded_event(self.stream(), self.pos(), level);
        }
        let value = self.take_line_value()?;
        let mut record = Event::new(EventType::SourceData(value));
        loop
            invariant
                self.wf(),
                self.input() == old(self).input(),
                goal == recorded_event(old(self).stream(), old(self).pos(), level),
                goal == block(self.stream(), self.pos(), level, record@),
                goal matches Ok((_, k)) ==> spans(old(self).stream(), old(self).pos(), k, level),
            decreases self.stream().len() - self.pos(),
        {
            proof {
                self.lemma_wf();
            }
            match self.look(level) {
                Look::Close => {
                    return Ok(record);
                },
                Look::Deeper => {
                    self.advance();
                },
                Look::Field(tag) => {
                    if same_text(tag.as_str(), "DATE") {
                        record.date = Some(self.take_line_value()?);
                    } else if same_text(tag.as_str(), "PLAC") {
                        record.place = Some(self.take_line_value()?);
                    } else if same_text(tag.as_str(), "SOUR") {
                        let item = self.parse_citation(below(level))?;
                        push_viewed(&mut record.citations, item);
                    } else {
                        return Err(self.fault(FaultKind::UnknownField));
                    }
                },
                Look::Custom(tag) => {
                    let pair = self.parse_custom_tag(tag)?;
                    push_viewed(&mut record.custom_data, pair);
                },
                Look::Other => {
                    return Err(self.fault(FaultKind::UnexpectedToken));
                },
            }
            proof {
                self.lemma_wf();
            }
        }
    }
}

} // verus!
