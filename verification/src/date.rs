//! Dates.
use crate::fault::{FaultKind, ParseFault};
use crate::grammar::{
    bare_tag, block, fault_at, lemma_block, line_value, spans, then, Block, Outcome,
};
use crate::parser::{agrees, Look, Parser};
use crate::record::{
    custom_pair, no_items, push_viewed, view_of, views, CustomData, CustomDataView,
};
use crate::text::same_text;
use crate::token::{well_formed, Lexeme, TokenView};
use vstd::prelude::*;

verus! {

/// A date, with the time of day where one is given.
#[derive(Clone, Debug, PartialEq, Eq)]
pub struct Date {
    pub value: Option<String>,
    pub time: Option<String>,
    pub custom_data: Vec<CustomData>,
}

/// [`Date`] as a mathematical value.
pub struct DateView {
    pub value: Option<Seq<char>>,
    pub time: Option<Seq<char>>,
    pub custom_data: Seq<CustomDataView>,
}

impl View for Date {
    type V = DateView;

    open spec fn view(&self) -> DateView {
        DateView {
            value: view_of(self.value),
            time: view_of(self.time),
            custom_data: views(self.custom_data@),
        }
    }
}

impl DateView {
    /// The record with nothing read into it yet.
    pub open spec fn empty() -> DateView {
        DateView {
            value: None,
            time: None,
            custom_data: Seq::empty(),
        }
    }
}

impl Date {
    /// The record with nothing read into it yet.
    pub fn new() -> (r: Date)
        ensures
            r@ == DateView::empty(),
    {
        Date {
            value: None,
            time: None,
            custom_data: no_items(),
        }
    }
}

impl Block for DateView {
    open spec fn field(s: Seq<Lexeme>, floor: u8, acc: Self, j: int) -> Outcome<Self> {
        match s[j].token {
            TokenView::Tag(t) => if t == "TIME"@ {
                then(line_value(s, j), |v: Seq<char>| DateView { time: Some(v), ..acc })
            } else {
                Err(fault_at(s, j, FaultKind::UnknownField))
            },
            _ => then(
                custom_pair(s, j),
                |c: CustomDataView| DateView { custom_data: acc.custom_data.push(c), ..acc },
            ),
        }
    }

    proof fn lemma_field(s: Seq<Lexeme>, floor: u8, acc: Self, j: int) {
    }
}

/// The date that the `DATE` line at `i` introduces.
pub open spec fn date(s: Seq<Lexeme>, i: int, floor: u8) -> Outcome<DateView> {
    match line_value(s, i) {
        Ok((v, k)) => block(s, k, floor, DateView { value: Some(v), ..DateView::empty() }),
        Err(e) => Err(e),
    }
}

/// What is read from `i` on ends at the first level that is no deeper than `floor`,
/// or at the end of the input: at what follows the record, and not before.
pub proof fn lemma_date(s: Seq<Lexeme>, i: int, floor: u8)
    requires
        well_formed(s),
        0 <= i < s.len(),
    ensures
        date(s, i, floor) matches Ok((_, k)) ==> spans(s, i, k, floor),
{
    if let Ok((v, k)) = line_value(s, i) {
        lemma_block(s, k, floor, DateView { value: Some(v), ..DateView::empty() });
    }
}

impl Parser {
    /// Reads the date that the `DATE` line introduces on which the parser stands.
    pub(crate) fn parse_date(&mut self, level: u8) -> (r: Result<Date, ParseFault>)
        requires
            old(self).wf(),
        ensures
            final(self).wf(),
            final(self).input() == old(self).input(),
            agrees(r, final(self).pos(), date(old(self).stream(), old(self).pos(), level)),
            r is Ok ==> spans(old(self).stream(), old(self).pos(), final(self).pos(), level),
    {
        let ghost goal = date(self.stream(), self.pos(), level);
        proof {
            self.lemma_wf();
            lemma_date(self.stream(), self.pos(), level);
        }
        let value = self.take_line_value()?;
        let mut record = Date::new();
        record.value = Some(value);
        loop
            invariant
                self.wf(),
                self.input() == old(self).input(),
                goal == date(old(self).stream(), old(self).pos(), level),
                goal == block(self.stream(), self.pos(), level, record@),
                goal matches Ok((_, k)) ==> spans(old(self).stream(), old(self).pos(), k, level),
            decreases self.stream().len() - self.pos(),
        {
            proof {
                self.lemma_wf();
            }
            match self.look(level) {
                Look::Close => {
                    return Ok(record);
                },
                Look::Deeper => {
                    self.advance();
                },
                Look::Field(tag) => {
                    if same_text(tag.as_str(), "TIME") {
                        record.time = Some(self.take_line_value()?);
                    } else {
                        return Err(self.fault(FaultKind::UnknownField));
                    }
                },
                Look::Custom(tag) => {
                    let pair = self.parse_custom_tag(tag)?;
                    push_viewed(&mut record.custom_data, pair);
                },
                Look::Other => {
                    return Err(self.fault(FaultKind::UnexpectedToken));
                },
            }
            proof {
                self.lemma_wf();
            }
        }
    }
}

/// When a record was last changed.
#[derive(Clone, Debug, PartialEq, Eq)]
pub struct ChangeDate {
    pub date: Option<String>,
}

/// [`ChangeDate`] as a mathematical value.
pub struct ChangeDateView {
    pub date: Option<Seq<char>>,
}

impl View for ChangeDate {
    type V = ChangeDateView;

    open spec fn view(&self) -> ChangeDateView {
        ChangeDateView {
            date: view_of(self.date),
        }
    }
}

impl ChangeDateView {
    /// The record with nothing read into it yet.
    pub open spec fn empty() -> ChangeDateView {
        ChangeDateView {
            date: None,
        }
    }
}

impl ChangeDate {
    /// The record with nothing read into it yet.
    pub fn new() -> (r: ChangeDate)
        ensures
            r@ == ChangeDateView::empty(),
    {
        ChangeDate {
            date: None,
        }
    }
}

impl Block for ChangeDateView {
    open spec fn field(s: Seq<Lexeme>, floor: u8, acc: Self, j: int) -> Outcome<Self> {
        match s[j].token {
            TokenView::Tag(t) => if t == "DATE"@ {
                then(line_value(s, j), |v: Seq<char>| ChangeDateView { date: Some(v), ..acc })
            } else {
                Err(fault_at(s, j, FaultKind::UnknownField))
            },
            _ => Err(fault_at(s, j, FaultKind::UnexpectedToken)),
        }
    }

    proof fn lemma_field(s: Seq<Lexeme>, floor: u8, acc: Self, j: int) {
    }
}

/// What the `CHAN` line at `i` introduces: the date of the last change.
pub open spec fn change_date(s: Seq<Lexeme>, i: int, floor: u8) -> Outcome<ChangeDateView> {
    match bare_tag(s, i) {
        Ok((_, k)) => block(s, k, floor, ChangeDateView::empty()),
        Err(e) => Err(e),
    }
}

/// What is read from `i` on ends at the first level that is no deeper than `floor`,
/// or at the end of the input: at what follows the record, and not before.
pub proof fn lemma_change_date(s: Seq<Lexeme>, i: int, floor: u8)
    requires
        well_formed(s),
        0 <= i < s.len(),
    ensures
        change_date(s, i, floor) matches Ok((_, k)) ==> spans(s, i, k, floor),
{
    if let Ok((_, k)) = bare_tag(s, i) {
        lemma_block(s, k, floor, ChangeDateView::empty());
    }
}

impl Parser {
    /// Reads the date of the last change, which the `CHAN` line introduces on which the
    /// parser stands.
    pub(crate) fn parse_change_date(&mut self, level: u8) -> (r: Result<ChangeDate, ParseFault>)
        requires
            old(self).wf(),
        ensures
            final(self).wf(),
            final(self).input() == old(self).input(),
            agrees(r, final(self).pos(), change_date(old(self).stream(), old(self).pos(), level)),
            r is Ok ==> spans(old(self).stream(), old(self).pos(), final(self).pos(), level),
    {
        let ghost goal = change_date(self.stream(), self.pos(), level);
        proof {
            self.lemma_wf();
            lemma_change_date(self.stream(), self.pos(), level);
        }
        self.skip_tag()?;
        let mut record = ChangeDate::new();
        loop
            invariant
                self.wf(),
                self.input() == old(self).input(),
                goal == change_date(old(self).stream(), old(self).pos(), level),
                goal == block(self.stream(), self.pos(), level, record@),
                goal matches Ok((_, k)) ==> spans(old(self).stream(), old(self).pos(), k, level),
            decreases self.stream().len() - self.pos(),
        {
            proof {
                self.lemma_wf();
            }
            match self.look(level) {
                Look::Close => {
                    return Ok(record);
                },
                Look::Deeper => {
                    self.advance();
                },
                Look::Field(tag) => {
                    if same_text(tag.as_str(), "DATE") {
                        record.date = Some(self.take_line_value()?);
                    } else {
                        return Err(self.fault(FaultKind::UnknownField));
                    }
                },
                _ => {
                    return Err(self.fault(FaultKind::UnexpectedToken));
                },
            }
            proof {
                self.lemma_wf();
            }
        }
    }
}

} // verus!
