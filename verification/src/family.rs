//! Families.
use crate::event::{event, lemma_event, Event, EventView};
use crate::fault::{FaultKind, ParseFault};
use crate::grammar::{
    bare_tag, block, deeper, fault_at, lemma_block, line_value, spans, then, Block, Outcome,
};
use crate::parser::{agrees, below, Look, Parser};
use crate::record::{
    custom_pair, no_items, push_viewed, view_of, views, CustomData, CustomDataView,
};
use crate::text::same_text;
use crate::token::{well_formed, Lexeme, TokenView};
use vstd::prelude::*;

verus! {

/// A family: a couple, their children, and what happened to them together.
#[derive(Clone, Debug, PartialEq, Eq)]
pub struct Family {
    pub xref: Option<String>,
    pub individual1: Option<String>,
    pub individual2: Option<String>,
    pub children: Vec<String>,
    pub events: Vec<Event>,
    pub custom_data: Vec<CustomData>,
}

/// [`Family`] as a mathematical value.
pub struct FamilyView {
    pub xref: Option<Seq<char>>,
    pub individual1: Option<Seq<char>>,
    pub individual2: Option<Seq<char>>,
    pub children: Seq<Seq<char>>,
    pub events: Seq<EventView>,
    pub custom_data: Seq<CustomDataView>,
}

impl View for Family {
    type V = FamilyView;

    open spec fn view(&self) -> FamilyView {
        FamilyView {
            xref: view_of(self.xref),
            individual1: view_of(self.individual1),
            individual2: view_of(self.individual2),
            children: views(self.children@),
            events: views(self.events@),
            custom_data: views(self.custom_data@),
        }
    }
}

impl FamilyView {
    /// The record with nothing read into it yet.
    pub open spec fn empty(xref: Option<Seq<char>>) -> FamilyView {
        FamilyView {
            xref: xref,
            individual1: None,
            individual2: None,
            children: Seq::empty(),
            events: Seq::empty(),
            custom_data: Seq::empty(),
        }
    }
}

impl Family {
    /// The record with nothing read into it yet.
    pub fn new(xref: Option<String>) -> (r: Family)
        ensures
            r@ == FamilyView::empty(view_of(xref)),
    {
        Family {
            xref: xref,
            individual1: None,
            individual2: None,
            children: no_items(),
            events: no_items(),
            custom_data: no_items(),
        }
    }
}

impl Block for FamilyView {
    open spec fn field(s: Seq<Lexeme>, floor: u8, acc: Self, j: int) -> Outcome<Self> {
        match s[j].token {
            TokenView::Tag(t) => if t == "MARR"@ {
                then(
                    event(s, j, "MARR"@, deeper(floor)),
                    |v: EventView| FamilyView { events: acc.events.push(v), ..acc },
                )
            } else if t == "HUSB"@ {
                then(line_value(s, j), |v: Seq<char>| FamilyView { individual1: Some(v), ..acc })
            } else if t == "WIFE"@ {
                then(line_value(s, j), |v: Seq<char>| FamilyView { individual2: Some(v), ..acc })
            } else if t == "CHIL"@ {
                then(
                    line_value(s, j),
                    |v: Seq<char>| FamilyView { children: acc.children.push(v), ..acc },
                )
            } else {
                Err(fault_at(s, j, FaultKind::UnknownField))
            },
            _ => then(
                custom_pair(s, j),
                |c: CustomDataView| FamilyView { custom_data: acc.custom_data.push(c), ..acc },
            ),
        }
    }

    proof fn lemma_field(s: Seq<Lexeme>, floor: u8, acc: Self, j: int) {
        lemma_event(s, j, "MARR"@, deeper(floor));
    }
}

/// The family that the `FAM` line at `i` introduces, with the pointer `xref`.
pub open spec fn family(
    s: Seq<Lexeme>,
    i: int,
    xref: Option<Seq<char>>,
    floor: u8,
) -> Outcome<FamilyView> {
    match bare_tag(s, i) {
        Ok((_, k)) => block(s, k, floor, FamilyView::empty(xref)),
        Err(e) => Err(e),
    }
}

/// What is read from `i` on ends at the first level that is no deeper than `floor`,
/// or at the end of the input: at what follows the record, and not before.
pub proof fn lemma_family(s: Seq<Lexeme>, i: int, xref: Option<Seq<char>>, floor: u8)
    requires
        well_formed(s),
        0 <= i < s.len(),
    ensures
        family(s, i, xref, floor) matches Ok((_, k)) ==> spans(s, i, k, floor),
{
    if let Ok((_, k)) = bare_tag(s, i) {
        lemma_block(s, k, floor, FamilyView::empty(xref));
    }
}

impl Parser {
    /// Reads the family that the `FAM` line introduces on which the parser stands.
    pub(crate) fn parse_family(
        &mut self,
        level: u8,
        xref: Option<String>,
    ) -> (r: Result<Family, ParseFault>)
        requires
            old(self).wf(),
        ensures
            final(self).wf(),
            final(self).input() == old(self).input(),
            agrees(
                r,
                final(self).pos(),
                family(old(self).stream(), old(self).pos(), view_of(xref), level),
            ),
            r is Ok ==> spans(old(self).stream(), old(self).pos(), final(self).pos(), level),
    {
        let ghost goal = family(self.stream(), self.pos(), view_of(xref), level);
        proof {
            self.lemma_wf();
            lemma_family(self.stream(), self.pos(), view_of(xref), level);
        }
        self.skip_tag()?;
        let mut record = Family::new(xref);
        loop
            invariant
                self.wf(),
                self.input() == old(self).input(),
                goal == family(old(self).stream(), old(self).pos(), view_of(xref), level),
                goal == block(self.stream(), self.pos(), level, record@),
                goal matches Ok((_, k)) ==> spans(old(self).stream(), old(self).pos(), k, level),
            decreases self.stream().len() - self.pos(),
        {
            proof {
                self.lemma_wf();
            }
            match self.look(level) {
                Look::Close => {
                    return Ok(record);
                },
                Look::Deeper => {
                    self.advance();
                },
                Look::Field(tag) => {
                    if same_text(tag.as_str(), "MARR") {
                        let item = self.parse_event("MARR", below(level))?;
                        push_viewed(&mut record.events, item);
                    } else if same_text(tag.as_str(), "HUSB") {
                        record.individual1 = Some(self.take_line_value()?);
                    } else if same_text(tag.as_str(), "WIFE") {
                        record.individual2 = Some(self.take_line_value()?);
                    } else if same_text(tag.as_str(), "CHIL") {
                        let item = self.take_line_value()?;
                        push_viewed(&mut record.children, item);
                    } else {
                        return Err(self.fault(FaultKind::UnknownField));
                    }
                },
                Look::Custom(tag) => {
                    let pair = self.parse_custom_tag(tag)?;
                    push_viewed(&mut record.custom_data, pair);
                },
                Look::Other => {
                    return Err(self.fault(FaultKind::UnexpectedToken));
                },
            }
            proof {
                self.lemma_wf();
            }
        }
    }
}

} // verus!
