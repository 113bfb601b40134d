//! Addresses.
use crate::fault::{FaultKind, ParseFault};
use crate::grammar::{
    bare_tag, block, fault_at, lemma_block, line_value, spans, then, Block, Outcome,
};
use crate::parser::{agrees, Look, Parser};
use crate::record::{
    continued, custom_pair, extend, no_items, push_viewed, view_of, views, CustomData,
    CustomDataView,
};
use crate::text::same_text;
use crate::token::{well_formed, Lexeme, TokenView};
use vstd::prelude::*;

verus! {

/// A postal address: the text as written, and its parts where they are given.
#[derive(Clone, Debug, PartialEq, Eq)]
pub struct Address {
    pub value: Option<String>,
    pub adr1: Option<String>,
    pub adr2: Option<String>,
    pub adr3: Option<String>,
    pub city: Option<String>,
    pub state: Option<String>,
    pub post: Option<String>,
    pub country: Option<String>,
    pub custom_data: Vec<CustomData>,
}

/// [`Address`] as a mathematical value.
pub struct AddressView {
    pub value: Option<Seq<char>>,
    pub adr1: Option<Seq<char>>,
    pub adr2: Option<Seq<char>>,
    pub adr3: Option<Seq<char>>,
    pub city: Option<Seq<char>>,
    pub state: Option<Seq<char>>,
    pub post: Option<Seq<char>>,
    pub country: Option<Seq<char>>,
    pub custom_data: Seq<CustomDataView>,
}

impl View for Address {
    type V = AddressView;

    open spec fn view(&self) -> AddressView {
        AddressView {
            value: view_of(self.value),
            adr1: view_of(self.adr1),
            adr2: view_of(self.adr2),
            adr3: view_of(self.adr3),
            city: view_of(self.city),
            state: view_of(self.state),
            post: view_of(self.post),
            country: view_of(self.country),
            custom_data: views(self.custom_data@),
        }
    }
}

impl AddressView {
    /// The record with nothing read into it yet.
    pub open spec fn empty() -> AddressView {
        AddressView {
            value: None,
            adr1: None,
            adr2: None,
            adr3: None,
            city: None,
            state: None,
            post: None,
            country: None,
            custom_data: Seq::empty(),
        }
    }
}

impl Address {
    /// The record with nothing read into it yet.
    pub fn new() -> (r: Address)
        ensures
            r@ == AddressView::empty(),
    {
        Address {
            value: None,
            adr1: None,
            adr2: None,
            adr3: None,
            city: None,
            state: None,
            post: None,
            country: None,
            custom_data: no_items(),
        }
    }
}

impl Block for AddressView {
    open spec fn field(s: Seq<Lexeme>, floor: u8, acc: Self, j: int) -> Outcome<Self> {
        match s[j].token {
            TokenView::Tag(t) => if t == "CONT"@ {
                then(
                    line_value(s, j),
                    |v: Seq<char>|
                        AddressView { value: Some(continued(acc.value, '\n', v)), ..acc },
                )
            } else if t == "CONC"@ {
                then(
                    line_value(s, j),
                    |v: Seq<char>| AddressView { value: Some(continued(acc.value, ' ', v)), ..acc },
                )
            } else if t == "ADR1"@ {
                then(line_value(s, j), |v: Seq<char>| AddressView { adr1: Some(v), ..acc })
            } else if t == "ADR2"@ {
                then(line_value(s, j), |v: Seq<char>| AddressView { adr2: Some(v), ..acc })
            } else if t == "ADR3"@ {
                then(line_value(s, j), |v: Seq<char>| AddressView { adr3: Some(v), ..acc })
            } else if t == "CITY"@ {
                then(line_value(s, j), |v: Seq<char>| AddressView { city: Some(v), ..acc })
            } else if t == "STAE"@ {
                then(line_value(s, j), |v: Seq<char>| AddressView { state: Some(v), ..acc })
            } else if t == "POST"@ {
                then(line_value(s, j), |v: Seq<char>| AddressView { post: Some(v), ..acc })
            } else if t == "CTRY"@ {
                then(line_value(s, j), |v: Seq<char>| AddressView { country: Some(v), ..acc })
            } else {
                Err(fault_at(s, j, FaultKind::UnknownField))
            },
            _ => then(
                custom_pair(s, j),
                |c: CustomDataView| AddressView { custom_data: acc.custom_data.push(c), ..acc },
            ),
        }
    }

    proof fn lemma_field(s: Seq<Lexeme>, floor: u8, acc: Self, j: int) {
    }
}

/// The address that the `ADDR` line at `i` introduces. The line may hold the first
/// line of the address.
pub open spec fn address(s: Seq<Lexeme>, i: int, floor: u8) -> Outcome<AddressView> {
    match bare_tag(s, i) {
        Ok((_, k)) => match s[k].token {
            TokenView::LineValue(v) => block(
                s,
                k + 1,
                floor,
                AddressView { value: Some(v), ..AddressView::empty() },
            ),
            _ => block(s, k, floor, AddressView::empty()),
        },
        Err(e) => Err(e),
    }
}

/// What is read from `i` on ends at the first level that is no deeper than `floor`,
/// or at the end of the input: at what follows the record, and not before.
pub proof fn lemma_address(s: Seq<Lexeme>, i: int, floor: u8)
    requires
        well_formed(s),
        0 <= i < s.len(),
    ensures
        address(s, i, floor) matches Ok((_, k)) ==> spans(s, i, k, floor),
{
    if let Ok((_, k)) = bare_tag(s, i) {
        match s[k].token {
            TokenView::LineValue(v) => {
                lemma_block(
                    s,
                    k + 1,
                    floor,
                    AddressView { value: Some(v), ..AddressView::empty() },
                );
            },
            _ => {
                lemma_block(s, k, floor, AddressView::empty());
            },
        }
    }
}

impl Parser {
    /// Reads the address that the `ADDR` line introduces on which the parser stands.
    pub(crate) fn parse_address(&mut self, level: u8) -> (r: Result<Address, ParseFault>)
        requires
            old(self).wf(),
        ensures
            final(self).wf(),
            final(self).input() == old(self).input(),
            agrees(r, final(self).pos(), address(old(self).stream(), old(self).pos(), level)),
            r is Ok ==> spans(old(self).stream(), old(self).pos(), final(self).pos(), level),
    {
        let ghost goal = address(self.stream(), self.pos(), level);
        proof {
            self.lemma_wf();
            lemma_address(self.stream(), self.pos(), level);
        }
        self.skip_tag()?;
        let mut record = Address::new();
        if let Some(first) = self.value_here() {
            record.value = Some(first);
            self.advance();
        }
        loop
            invariant
                self.wf(),
                self.input() == old(self).input(),
                goal == address(old(self).stream(), old(self).pos(), level),
                goal == block(self.stream(), self.pos(), level, record@),
                goal matches Ok((_, k)) ==> spans(old(self).stream(), old(self).pos(), k, level),
            decreases self.stream().len() - self.pos(),
        {
            proof {
                self.lemma_wf();
            }
            match self.look(level) {
                Look::Close => {
                    return Ok(record);
                },
                Look::Deeper => {
                    self.advance();
                },
                Look::Field(tag) => {
                    if same_text(tag.as_str(), "CONT") {
                        let line = self.take_line_value()?;
                        extend(&mut record.value, '\n', line);
                    } else if same_text(tag.as_str(), "CONC") {
                        let line = self.take_line_value()?;
                        extend(&mut record.value, ' ', line);
                    } else if same_text(tag.as_str(), "ADR1") {
                        record.adr1 = Some(self.take_line_value()?);
                    } else if same_text(tag.as_str(), "ADR2") {
                        record.adr2 = Some(self.take_line_value()?);
                    } else if same_text(tag.as_str(), "ADR3") {
                        record.adr3 = Some(self.take_line_value()?);
                    } else if same_text(tag.as_str(), "CITY") {
                        record.city = Some(self.take_line_value()?);
                    } else if same_text(tag.as_str(), "STAE") {
                        record.state = Some(self.take_line_value()?);
                    } else if same_text(tag.as_str(), "POST") {
                        record.post = Some(self.take_line_value()?);
                    } else if same_text(tag.as_str(), "CTRY") {
                        record.country = Some(self.take_line_value()?);
                    } else {
                        return Err(self.fault(FaultKind::UnknownField));
                    }
                },
                Look::Custom(tag) => {
                    let pair = self.parse_custom_tag(tag)?;
                    push_viewed(&mut record.custom_data, pair);
                },
                Look::Other => {
                    return Err(self.fault(FaultKind::UnexpectedToken));
                },
            }
            proof {
                self.lemma_wf();
            }
        }
    }
}

} // verus!
