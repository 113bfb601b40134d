//! The header of a document, and what it is made of.
use crate::address::{address, lemma_address, Address, AddressView};
use crate::date::{date, lemma_date, Date, DateView};
use crate::fault::{
    add_notice, plain, with_notice, FaultKind, Notice, NoticeKind, NoticeView, Noted, NotedView,
    ParseFault,
};
use crate::grammar::{
    bare_tag, block, deeper, fault_at, lemma_block, line_value, spans, then, Block, Outcome,
};
use crate::note::{lemma_note, note, Note, NoteView};
use crate::parser::{agrees, below, Look, Parser};
use crate::record::{
    append_viewed, continued, custom_pair, extend, no_items, push_viewed, view_of, views,
    CustomData, CustomDataView,
};
use crate::text::{entries, same_text, split_entries, uppercase, uppercased};
use crate::token::{well_formed, Lexeme, TokenView};
use vstd::prelude::*;

verus! {

/// A copyright statement.
#[derive(Clone, Debug, PartialEq, Eq)]
pub struct Copyright {
    pub value: Option<String>,
    pub custom_data: Vec<CustomData>,
}

/// [`Copyright`] as a mathematical value.
pub struct CopyrightView {
    pub value: Option<Seq<char>>,
    pub custom_data: Seq<CustomDataView>,
}

impl View for Copyright {
    type V = CopyrightView;

    open spec fn view(&self) -> CopyrightView {
        CopyrightView {
            value: view_of(self.value),
            custom_data: views(self.custom_data@),
        }
    }
}

impl CopyrightView {
    /// The record with nothing read into it yet.
    pub open spec fn empty() -> CopyrightView {
        CopyrightView {
            value: None,
            custom_data: Seq::empty(),
        }
    }
}

impl Copyright {
    /// The record with nothing read into it yet.
    pub fn new() -> (r: Copyright)
        ensures
            r@ == CopyrightView::empty(),
    {
        Copyright {
            value: None,
            custom_data: no_items(),
        }
    }
}

impl Block for CopyrightView {
    open spec fn field(s: Seq<Lexeme>, floor: u8, acc: Self, j: int) -> Outcome<Self> {
        match s[j].token {
            TokenView::Tag(t) => if t == "CONT"@ {
                then(
                    line_value(s, j),
                    |v: Seq<char>|
                        CopyrightView { value: Some(continued(acc.value, '\n', v)), ..acc },
                )
            } else if t == "CONC"@ {
                then(
                    line_value(s, j),
                    |v: Seq<char>|
                        CopyrightView { value: Some(continued(acc.value, ' ', v)), ..acc },
                )
            } else {
                Err(fault_at(s, j, FaultKind::UnknownField))
            },
            _ => then(
                custom_pair(s, j),
                |c: CustomDataView| CopyrightView { custom_data: acc.custom_data.push(c), ..acc },
            ),
        }
    }

    proof fn lemma_field(s: Seq<Lexeme>, floor: u8, acc: Self, j: int) {
    }
}

/// The statement that the `COPR` line at `i` introduces.
pub open spec fn copyright(s: Seq<Lexeme>, i: int, floor: u8) -> Outcome<CopyrightView> {
    match line_value(s, i) {
        Ok((v, k)) => block(
            s,
            k,
            floor,
            CopyrightView { value: Some(v), ..CopyrightView::empty() },
        ),
        Err(e) => Err(e),
    }
}

/// What is read from `i` on ends at the first level that is no deeper than `floor`,
/// or at the end of the input: at what follows the record, and not before.
pub proof fn lemma_copyright(s: Seq<Lexeme>, i: int, floor: u8)
    requires
        well_formed(s),
        0 <= i < s.len(),
    ensures
        copyright(s, i, floor) matches Ok((_, k)) ==> spans(s, i, k, floor),
{
    if let Ok((v, k)) = line_value(s, i) {
        lemma_block(s, k, floor, CopyrightView { value: Some(v), ..CopyrightView::empty() });
    }
}

impl Parser {
    /// Reads the statement that the `COPR` line introduces on which the parser stands.
    pub(crate) fn parse_copyright(&mut self, level: u8) -> (r: Result<Copyright, ParseFault>)
        requires
            old(self).wf(),
        ensures
            final(self).wf(),
            final(self).input() == old(self).input(),
            agrees(r, final(self).pos(), copyright(old(self).stream(), old(self).pos(), level)),
            r is Ok ==> spans(old(self).stream(), old(self).pos(), final(self).pos(), level),
    {
        let ghost goal = copyright(self.stream(), self.pos(), level);
        proof {
            self.lemma_wf();
            lemma_copyright(self.stream(), self.pos(), level);
        }
        let value = self.take_line_value()?;
        let mut record = Copyright::new();
        record.value = Some(value);
        loop
            invariant
                self.wf(),
                self.input() == old(self).input(),
                goal == copyright(old(self).stream(), old(self).pos(), level),
                goal == block(self.stream(), self.pos(), level, record@),
                goal matches Ok((_, k)) ==> spans(old(self).stream(), old(self).pos(), k, level),
            decreases self.stream().len() - self.pos(),
        {
            proof {
                self.lemma_wf();
            }
            match self.look(level) {
                Look::Close => {
                    return Ok(record);
                },
                Look::Deeper => {
                    self.advance();
                },
                Look::Field(tag) => {
                    if same_text(tag.as_str(), "CONT") {
                        let line = self.take_line_value()?;
                        extend(&mut record.value, '\n', line);
                    } else if same_text(tag.as_str(), "CONC") {
                        let line = self.take_line_value()?;
                        extend(&mut record.value, ' ', line);
                    } else {
                        return Err(self.fault(FaultKind::UnknownField));
                    }
                },
                Look::Custom(tag) => {
                    let pair = self.parse_custom_tag(tag)?;
                    push_viewed(&mut record.custom_data, pair);
                },
                Look::Other => {
                    return Err(self.fault(FaultKind::UnexpectedToken));
                },
            }
            proof {
                self.lemma_wf();
            }
        }
    }
}

/// The character set that the document was written in.
#[derive(Clone, Debug, PartialEq, Eq)]
pub struct Encoding {
    pub value: Option<String>,
    pub version: Option<String>,
    pub custom_data: Vec<CustomData>,
}

/// [`Encoding`] as a mathematical value.
pub struct EncodingView {
    pub value: Option<Seq<char>>,
    pub version: Option<Seq<char>>,
    pub custom_data: Seq<CustomDataView>,
}

impl View for Encoding {
    type V = EncodingView;

    open spec fn view(&self) -> EncodingView {
        EncodingView {
            value: view_of(self.value),
            version: view_of(self.version),
            custom_data: views(self.custom_data@),
        }
    }
}

impl EncodingView {
    /// The record with nothing read into it yet.
    pub open spec fn empty() -> EncodingView {
        EncodingView {
            value: None,
            version: None,
            custom_data: Seq::empty(),
        }
    }
}

impl Encoding {
    /// The record with nothing read into it yet.
    pub fn new() -> (r: Encoding)
        ensures
            r@ == EncodingView::empty(),
    {
        Encoding {
            value: None,
            version: None,
            custom_data: no_items(),
        }
    }
}

impl Block for EncodingView {
    open spec fn field(s: Seq<Lexeme>, floor: u8, acc: Self, j: int) -> Outcome<Self> {
        match s[j].token {
            TokenView::Tag(t) => if t == "VERS"@ {
                then(line_value(s, j), |v: Seq<char>| EncodingView { version: Some(v), ..acc })
            } else {
                Err(fault_at(s, j, FaultKind::UnknownField))
            },
            _ => then(
                custom_pair(s, j),
                |c: CustomDataView| EncodingView { custom_data: acc.custom_data.push(c), ..acc },
            ),
        }
    }

    proof fn lemma_field(s: Seq<Lexeme>, floor: u8, acc: Self, j: int) {
    }
}

/// The character set that the `CHAR` line at `i` introduces.
pub open spec fn encoding(s: Seq<Lexeme>, i: int, floor: u8) -> Outcome<EncodingView> {
    match line_value(s, i) {
        Ok((v, k)) => block(s, k, floor, EncodingView { value: Some(v), ..EncodingView::empty() }),
        Err(e) => Err(e),
    }
}

/// What is read from `i` on ends at the first level that is no deeper than `floor`,
/// or at the end of the input: at what follows the record, and not before.
pub proof fn lemma_encoding(s: Seq<Lexeme>, i: int, floor: u8)
    requires
        well_formed(s),
        0 <= i < s.len(),
    ensures
        encoding(s, i, floor) matches Ok((_, k)) ==> spans(s, i, k, floor),
{
    if let Ok((v, k)) = line_value(s, i) {
        lemma_block(s, k, floor, EncodingView { value: Some(v), ..EncodingView::empty() });
    }
}

impl Parser {
    /// Reads the character set that the `CHAR` line introduces on which the parser
    /// stands.
    pub(crate) fn parse_encoding_data(&mut self) -> (r: Result<Encoding, ParseFault>)
        requires
            old(self).wf(),
        ensures
            final(self).wf(),
            final(self).input() == old(self).input(),
            agrees(r, final(self).pos(), encoding(old(self).stream(), old(self).pos(), 1)),
            r is Ok ==> spans(old(self).stream(), old(self).pos(), final(self).pos(), 1),
    {
        let ghost goal = encoding(self.stream(), self.pos(), 1);
        proof {
            self.lemma_wf();
            lemma_encoding(self.stream(), self.pos(), 1);
        }
        let value = self.take_line_value()?;
        let mut record = Encoding::new();
        record.value = Some(value);
        loop
            invariant
                self.wf(),
                self.input() == old(self).input(),
                goal == encoding(old(self).stream(), old(self).pos(), 1),
                goal == block(self.stream(), self.pos(), 1, record@),
                goal matches Ok((_, k)) ==> spans(old(self).stream(), old(self).pos(), k, 1),
            decreases self.stream().len() - self.pos(),
        {
            proof {
                self.lemma_wf();
            }
            match self.look(1) {
                Look::Close => {
                    return Ok(record);
                },
                Look::Deeper => {
                    self.advance();
                },
                Look::Field(tag) => {
                    if same_text(tag.as_str(), "VERS") {
                        record.version = Some(self.take_line_value()?);
                    } else {
                        return Err(self.fault(FaultKind::UnknownField));
                    }
                },
                Look::Custom(tag) => {
                    let pair = self.parse_custom_tag(tag)?;
                    push_viewed(&mut record.custom_data, pair);
                },
                Look::Other => {
                    return Err(self.fault(FaultKind::UnexpectedToken));
                },
            }
            proof {
                self.lemma_wf();
            }
        }
    }
}

/// The business that made the product that wrote the document.
#[derive(Clone, Debug, PartialEq, Eq)]
pub struct Corporation {
    pub value: Option<String>,
    pub address: Option<Address>,
    pub phone: Option<String>,
    pub email: Option<String>,
    pub fax: Option<String>,
    pub website: Option<String>,
    pub custom_data: Vec<CustomData>,
}

/// [`Corporation`] as a mathematical value.
pub struct CorporationView {
    pub value: Option<Seq<char>>,
    pub address: Option<AddressView>,
    pub phone: Option<Seq<char>>,
    pub email: Option<Seq<char>>,
    pub fax: Option<Seq<char>>,
    pub website: Option<Seq<char>>,
    pub custom_data: Seq<CustomDataView>,
}

impl View for Corporation {
    type V = CorporationView;

    open spec fn view(&self) -> CorporationView {
        CorporationView {
            value: view_of(self.value),
            address: view_of(self.address),
            phone: view_of(self.phone),
            email: view_of(self.email),
            fax: view_of(self.fax),
            website: view_of(self.website),
            custom_data: views(self.custom_data@),
        }
    }
}

impl CorporationView {
    /// The record with nothing read into it yet.
    pub open spec fn empty() -> CorporationView {
        CorporationView {
            value: None,
            address: None,
            phone: None,
            email: None,
            fax: None,
            website: None,
            custom_data: Seq::empty(),
        }
    }
}

impl Corporation {
    /// The record with nothing read into it yet.
    pub fn new() -> (r: Corporation)
        ensures
            r@ == CorporationView::empty(),
    {
        Corporation {
            value: None,
            address: None,
            phone: None,
            email: None,
            fax: None,
            website: None,
            custom_data: no_items(),
        }
    }
}

impl Block for CorporationView {
    open spec fn field(s: Seq<Lexeme>, floor: u8, acc: Self, j: int) -> Outcome<Self> {
        match s[j].token {
            TokenView::Tag(t) => if t == "ADDR"@ {
                then(
                    address(s, j, deeper(floor)),
                    |v: AddressView| CorporationView { address: Some(v), ..acc },
                )
            } else if t == "PHON"@ {
                then(line_value(s, j), |v: Seq<char>| CorporationView { phone: Some(v), ..acc })
            } else if t == "EMAIL"@ {
                then(line_value(s, j), |v: Seq<char>| CorporationView { email: Some(v), ..acc })
            } else if t == "FAX"@ {
                then(line_value(s, j), |v: Seq<char>| CorporationView { fax: Some(v), ..acc })
            } else if t == "WWW"@ {
                then(line_value(s, j), |v: Seq<char>| CorporationView { website: Some(v), ..acc })
            } else {
                Err(fault_at(s, j, FaultKind::UnknownField))
            },
            _ => then(
                custom_pair(s, j),
                |c: CustomDataView| CorporationView { custom_data: acc.custom_data.push(c), ..acc },
            ),
        }
    }

    proof fn lemma_field(s: Seq<Lexeme>, floor: u8, acc: Self, j: int) {
        lemma_address(s, j, deeper(floor));
    }
}

/// The business that the `CORP` line at `i` introduces.
pub open spec fn corporation(s: Seq<Lexeme>, i: int, floor: u8) -> Outcome<CorporationView> {
    match line_value(s, i) {
        Ok((v, k)) => block(
            s,
            k,
            floor,
            CorporationView { value: Some(v), ..CorporationView::empty() },
        ),
        Err(e) => Err(e),
    }
}

/// What is read from `i` on ends at the first level that is no deeper than `floor`,
/// or at the end of the input: at what follows the record, and not before.
pub proof fn lemma_corporation(s: Seq<Lexeme>, i: int, floor: u8)
    requires
        well_formed(s),
        0 <= i < s.len(),
    ensures
        corporation(s, i, floor) matches Ok((_, k)) ==> spans(s, i, k, floor),
{
    if let Ok((v, k)) = line_value(s, i) {
        lemma_block(s, k, floor, CorporationView { value: Some(v), ..CorporationView::empty() });
    }
}

impl Parser {
    /// Reads the business that the `CORP` line introduces on which the parser stands.
    pub(crate) fn parse_corporation(&mut self, level: u8) -> (r: Result<Corporation, ParseFault>)
        requires
            old(self).wf(),
        ensures
            final(self).wf(),
            final(self).input() == old(self).input(),
            agrees(r, final(self).pos(), corporation(old(self).stream(), old(self).pos(), level)),
            r is Ok ==> spans(old(self).stream(), old(self).pos(), final(self).pos(), level),
    {
        let ghost goal = corporation(self.stream(), self.pos(), level);
        proof {
            self.lemma_wf();
            lemma_corporation(self.stream(), self.pos(), level);
        }
        let value = self.take_line_value()?;
        let mut record = Corporation::new();
        record.value = Some(value);
        loop
            invariant
                self.wf(),
                self.input() == old(self).input(),
                goal == corporation(old(self).stream(), old(self).pos(), level),
                goal == block(self.stream(), self.pos(), level, record@),
                goal matches Ok((_, k)) ==> spans(old(self).stream(), old(self).pos(), k, level),
            decreases self.stream().len() - self.pos(),
        {
            proof {
                self.lemma_wf();
            }
            match self.look(level) {
                Look::Close => {
                    return Ok(record);
                },
                Look::Deeper => {
                    self.advance();
                },
                Look::Field(tag) => {
                    if same_text(tag.as_str(), "ADDR") {
                        record.address = Some(self.parse_address(below(level))?);
                    } else if same_text(tag.as_str(), "PHON") {
                        record.phone = Some(self.take_line_value()?);
                    } else if same_text(tag.as_str(), "EMAIL") {
                        record.email = Some(self.take_line_value()?);
                    } else if same_text(tag.as_str(), "FAX") {
                        record.fax = Some(self.take_line_value()?);
                    } else if same_text(tag.as_str(), "WWW") {
                        record.website = Some(self.take_line_value()?);
                    } else {
                        return Err(self.fault(FaultKind::UnknownField));
                    }
                },
                Look::Custom(tag) => {
                    let pair = self.parse_custom_tag(tag)?;
                    push_viewed(&mut record.custom_data, pair);
                },
                Look::Other => {
                    return Err(self.fault(FaultKind::UnexpectedToken));
                },
            }
            proof {
                self.lemma_wf();
            }
        }
    }
}

/// The data that the document was made from.
#[derive(Clone, Debug, PartialEq, Eq)]
pub struct HeadSourData {
    pub value: Option<String>,
    pub date: Option<Date>,
    pub copyright: Option<Copyright>,
    pub custom_data: Vec<CustomData>,
}

/// [`HeadSourData`] as a mathematical value.
pub struct HeadSourDataView {
    pub value: Option<Seq<char>>,
    pub date: Option<DateView>,
    pub copyright: Option<CopyrightView>,
    pub custom_data: Seq<CustomDataView>,
}

impl View for HeadSourData {
    type V = HeadSourDataView;

    open spec fn view(&self) -> HeadSourDataView {
        HeadSourDataView {
            value: view_of(self.value),
            date: view_of(self.date),
            copyright: view_of(self.copyright),
            custom_data: views(self.custom_data@),
        }
    }
}

impl HeadSourDataView {
    /// The record with nothing read into it yet.
    pub open spec fn empty() -> HeadSourDataView {
        HeadSourDataView {
            value: None,
            date: None,
            copyright: None,
            custom_data: Seq::empty(),
        }
    }
}

impl HeadSourData {
    /// The record with nothing read into it yet.
    pub fn new() -> (r: HeadSourData)
        ensures
            r@ == HeadSourDataView::empty(),
    {
        HeadSourData {
            value: None,
            date: None,
            copyright: None,
            custom_data: no_items(),
        }
    }
}

impl Block for HeadSourDataView {
    open spec fn field(s: Seq<Lexeme>, floor: u8, acc: Self, j: int) -> Outcome<Self> {
        match s[j].token {
            TokenView::Tag(t) => if t == "DATE"@ {
                then(
                    date(s, j, deeper(floor)),
                    |v: DateView| HeadSourDataView { date: Some(v), ..acc },
                )
            } else if t == "COPR"@ {
                then(
                    copyright(s, j, deeper(floor)),
                    |v: CopyrightView| HeadSourDataView { copyright: Some(v), ..acc },
                )
            } else {
                Err(fault_at(s, j, FaultKind::UnknownField))
            },
            _ => then(
                custom_pair(s, j),
                |c: CustomDataView|
                    HeadSourDataView { custom_data: acc.custom_data.push(c), ..acc },
            ),
        }
    }

    proof fn lemma_field(s: Seq<Lexeme>, floor: u8, acc: Self, j: int) {
        lemma_date(s, j, deeper(floor));
        lemma_copyright(s, j, deeper(floor));
    }
}

/// The data that the `DATA` line at `i` introduces.
pub open spec fn head_data(s: Seq<Lexeme>, i: int, floor: u8) -> Outcome<HeadSourDataView> {
    match line_value(s, i) {
        Ok((v, k)) => block(
            s,
            k,
            floor,
            HeadSourDataView { value: Some(v), ..HeadSourDataView::empty() },
        ),
        Err(e) => Err(e),
    }
}

/// What is read from `i` on ends at the first level that is no deeper than `floor`,
/// or at the end of the input: at what follows the record, and not before.
pub proof fn lemma_head_data(s: Seq<Lexeme>, i: int, floor: u8)
    requires
        well_formed(s),
        0 <= i < s.len(),
    ensures
        head_data(s, i, floor) matches Ok((_, k)) ==> spans(s, i, k, floor),
{
    if let Ok((v, k)) = line_value(s, i) {
        lemma_block(s, k, floor, HeadSourDataView { value: Some(v), ..HeadSourDataView::empty() });
    }
}

impl Parser {
    /// Reads what the `DATA` line introduces on which the parser stands.
    pub(crate) fn parse_head_data(&mut self, level: u8) -> (r: Result<HeadSourData, ParseFault>)
        requires
            old(self).wf(),
        ensures
            final(self).wf(),
            final(self).input() == old(self).input(),
            agrees(r, final(self).pos(), head_data(old(self).stream(), old(self).pos(), level)),
            r is Ok ==> spans(old(self).stream(), old(self).pos(), final(self).pos(), level),
    {
        let ghost goal = head_data(self.stream(), self.pos(), level);
        proof {
            self.lemma_wf();
            lemma_head_data(self.stream(), self.pos(), level);
        }
        let value = self.take_line_value()?;
        let mut record = HeadSourData::new();
        record.value = Some(value);
        loop
            invariant
                self.wf(),
                self.input() == old(self).input(),
                goal == head_data(old(self).stream(), old(self).pos(), level),
                goal == block(self.stream(), self.pos(), level, record@),
                goal matches Ok((_, k)) ==> spans(old(self).stream(), old(self).pos(), k, level),
            decreases self.stream().len() - self.pos(),
        {
            proof {
                self.lemma_wf();
            }
            match self.look(level) {
                Look::Close => {
                    return Ok(record);
                },
                Look::Deeper => {
                    self.advance();
                },
                Look::Field(tag) => {
                    if same_text(tag.as_str(), "DATE") {
                        record.date = Some(self.parse_date(below(level))?);
                    } else if same_text(tag.as_str(), "COPR") {
                        record.copyright = Some(self.parse_copyright(below(level))?);
                    } else {
                        return Err(self.fault(FaultKind::UnknownField));
                    }
                },
                Look::Custom(tag) => {
                    let pair = self.parse_custom_tag(tag)?;
                    push_viewed(&mut record.custom_data, pair);
                },
                Look::Other => {
                    return Err(self.fault(FaultKind::UnexpectedToken));
                },
            }
            proof {
                self.lemma_wf();
            }
        }
    }
}

/// The product that wrote the document.
#[derive(Clone, Debug, PartialEq, Eq)]
pub struct HeadSource {
    pub value: Option<String>,
    pub version: Option<String>,
    pub name: Option<String>,
    pub corporation: Option<Corporation>,
    pub data: Option<HeadSourData>,
    pub custom_data: Vec<CustomData>,
}

/// [`HeadSource`] as a mathematical value.
pub struct HeadSourceView {
    pub value: Option<Seq<char>>,
    pub version: Option<Seq<char>>,
    pub name: Option<Seq<char>>,
    pub corporation: Option<CorporationView>,
    pub data: Option<HeadSourDataView>,
    pub custom_data: Seq<CustomDataView>,
}

impl View for HeadSource {
    type V = HeadSourceView;

    open spec fn view(&self) -> HeadSourceView {
        HeadSourceView {
            value: view_of(self.value),
            version: view_of(self.version),
            name: view_of(self.name),
            corporation: view_of(self.corporation),
            data: view_of(self.data),
            custom_data: views(self.custom_data@),
        }
    }
}

impl HeadSourceView {
    /// The record with nothing read into it yet.
    pub open spec fn empty() -> HeadSourceView {
        HeadSourceView {
            value: None,
            version: None,
            name: None,
            corporation: None,
            data: None,
            custom_data: Seq::empty(),
        }
    }
}

impl HeadSource {
    /// The record with nothing read into it yet.
    pub fn new() -> (r: HeadSource)
        ensures
            r@ == HeadSourceView::empty(),
    {
        HeadSource {
            value: None,
            version: None,
            name: None,
            corporation: None,
            data: None,
            custom_data: no_items(),
        }
    }
}

impl Block for HeadSourceView {
    open spec fn field(s: Seq<Lexeme>, floor: u8, acc: Self, j: int) -> Outcome<Self> {
        match s[j].token {
            TokenView::Tag(t) => if t == "VERS"@ {
                then(line_value(s, j), |v: Seq<char>| HeadSourceView { version: Some(v), ..acc })
            } else if t == "NAME"@ {
                then(line_value(s, j), |v: Seq<char>| HeadSourceView { name: Some(v), ..acc })
            } else if t == "CORP"@ {
                then(
                    corporation(s, j, deeper(floor)),
                    |v: CorporationView| HeadSourceView { corporation: Some(v), ..acc },
                )
            } else if t == "DATA"@ {
                then(
                    head_data(s, j, deeper(floor)),
                    |v: HeadSourDataView| HeadSourceView { data: Some(v), ..acc },
                )
            } else {
                Err(fault_at(s, j, FaultKind::UnknownField))
            },
            _ => then(
                custom_pair(s, j),
                |c: CustomDataView| HeadSourceView { custom_data: acc.custom_data.push(c), ..acc },
            ),
        }
    }

    proof fn lemma_field(s: Seq<Lexeme>, floor: u8, acc: Self, j: int) {
        lemma_corporation(s, j, deeper(floor));
        lemma_head_data(s, j, deeper(floor));
    }
}

/// The product that the `SOUR` line of a header at `i` introduces.
pub open spec fn head_source(s: Seq<Lexeme>, i: int, floor: u8) -> Outcome<HeadSourceView> {
    match line_value(s, i) {
        Ok((v, k)) => block(
            s,
            k,
            floor,
            HeadSourceView { value: Some(v), ..HeadSourceView::empty() },
        ),
        Err(e) => Err(e),
    }
}

/// What is read from `i` on ends at the first level that is no deeper than `floor`,
/// or at the end of the input: at what follows the record, and not before.
pub proof fn lemma_head_source(s: Seq<Lexeme>, i: int, floor: u8)
    requires
        well_formed(s),
        0 <= i < s.len(),
    ensures
        head_source(s, i, floor) matches Ok((_, k)) ==> spans(s, i, k, floor),
{
    if let Ok((v, k)) = line_value(s, i) {
        lemma_block(s, k, floor, HeadSourceView { value: Some(v), ..HeadSourceView::empty() });
    }
}

impl Parser {
    /// Reads the product that the `SOUR` line of the header introduces on which the
    /// parser stands.
    pub(crate) fn parse_head_source(&mut self) -> (r: Result<HeadSource, ParseFault>)
        requires
            old(self).wf(),
        ensures
            final(self).wf(),
            final(self).input() == old(self).input(),
            agrees(r, final(self).pos(), head_source(old(self).stream(), old(self).pos(), 1)),
            r is Ok ==> spans(old(self).stream(), old(self).pos(), final(self).pos(), 1),
    {
        let ghost goal = head_source(self.stream(), self.pos(), 1);
        proof {
            self.lemma_wf();
            lemma_head_source(self.stream(), self.pos(), 1);
        }
        let value = self.take_line_value()?;
        let mut record = HeadSource::new();
        record.value = Some(value);
        loop
            invariant
                self.wf(),
                self.input() == old(self).input(),
                goal == head_source(old(self).stream(), old(self).pos(), 1),
                goal == block(self.stream(), self.pos(), 1, record@),
                goal matches Ok((_, k)) ==> spans(old(self).stream(), old(self).pos(), k, 1),
            decreases self.stream().len() - self.pos(),
        {
            proof {
                self.lemma_wf();
            }
            match self.look(1) {
                Look::Close => {
                    return Ok(record);
                },
                Look::Deeper => {
                    self.advance();
                },
                Look::Field(tag) => {
                    if same_text(tag.as_str(), "VERS") {
                        record.version = Some(self.take_line_value()?);
                    } else if same_text(tag.as_str(), "NAME") {
                        record.name = Some(self.take_line_value()?);
                    } else if same_text(tag.as_str(), "CORP") {
                        record.corporation = Some(self.parse_corporation(2)?);
                    } else if same_text(tag.as_str(), "DATA") {
                        record.data = Some(self.parse_head_data(2)?);
                    } else {
                        return Err(self.fault(FaultKind::UnknownField));
                    }
                },
                Look::Custom(tag) => {
                    let pair = self.parse_custom_tag(tag)?;
                    push_viewed(&mut record.custom_data, pair);
                },
                Look::Other => {
                    return Err(self.fault(FaultKind::UnexpectedToken));
                },
            }
            proof {
                self.lemma_wf();
            }
        }
    }
}

/// How places are written in the document: the order of the jurisdictions.
#[derive(Clone, Debug, PartialEq, Eq)]
pub struct HeadPlac {
    pub form: Vec<String>,
    pub custom_data: Vec<CustomData>,
}

/// [`HeadPlac`] as a mathematical value.
pub struct HeadPlacView {
    pub form: Seq<Seq<char>>,
    pub custom_data: Seq<CustomDataView>,
}

impl View for HeadPlac {
    type V = HeadPlacView;

    open spec fn view(&self) -> HeadPlacView {
        HeadPlacView {
            form: views(self.form@),
            custom_data: views(self.custom_data@),
        }
    }
}

impl HeadPlacView {
    /// The record with nothing read into it yet.
    pub open spec fn empty() -> HeadPlacView {
        HeadPlacView {
            form: Seq::empty(),
            custom_data: Seq::empty(),
        }
    }
}

impl HeadPlac {
    /// The record with nothing read into it yet.
    pub fn new() -> (r: HeadPlac)
        ensures
            r@ == HeadPlacView::empty(),
    {
        HeadPlac {
            form: no_items(),
            custom_data: no_items(),
        }
    }
}

impl Block for HeadPlacView {
    open spec fn field(s: Seq<Lexeme>, floor: u8, acc: Self, j: int) -> Outcome<Self> {
        match s[j].token {
            TokenView::Tag(t) => if t == "FORM"@ {
                then(
                    line_value(s, j),
                    |v: Seq<char>| HeadPlacView { form: acc.form + entries(v, 0), ..acc },
                )
            } else {
                Err(fault_at(s, j, FaultKind::UnknownField))
            },
            _ => then(
                custom_pair(s, j),
                |c: CustomDataView| HeadPlacView { custom_data: acc.custom_data.push(c), ..acc },
            ),
        }
    }

    proof fn lemma_field(s: Seq<Lexeme>, floor: u8, acc: Self, j: int) {
    }
}

/// What the `PLAC` line of a header at `i` introduces.
pub open spec fn head_plac(s: Seq<Lexeme>, i: int, floor: u8) -> Outcome<HeadPlacView> {
    match bare_tag(s, i) {
        Ok((_, k)) => block(s, k, floor, HeadPlacView::empty()),
        Err(e) => Err(e),
    }
}

/// What is read from `i` on ends at the first level that is no deeper than `floor`,
/// or at the end of the input: at what follows the record, and not before.
pub proof fn lemma_head_plac(s: Seq<Lexeme>, i: int, floor: u8)
    requires
        well_formed(s),
        0 <= i < s.len(),
    ensures
        head_plac(s, i, floor) matches Ok((_, k)) ==> spans(s, i, k, floor),
{
    if let Ok((_, k)) = bare_tag(s, i) {
        lemma_block(s, k, floor, HeadPlacView::empty());
    }
}

impl Parser {
    /// Reads what the `PLAC` line of the header introduces on which the parser stands.
    pub(crate) fn parse_head_plac(&mut self) -> (r: Result<HeadPlac, ParseFault>)
        requires
            old(self).wf(),
        ensures
            final(self).wf(),
            final(self).input() == old(self).input(),
            agrees(r, final(self).pos(), head_plac(old(self).stream(), old(self).pos(), 1)),
            r is Ok ==> spans(old(self).stream(), old(self).pos(), final(self).pos(), 1),
    {
        let ghost goal = head_plac(self.stream(), self.pos(), 1);
        proof {
            self.lemma_wf();
            lemma_head_plac(self.stream(), self.pos(), 1);
        }
        self.skip_tag()?;
        let mut record = HeadPlac::new();
        loop
            invariant
                self.wf(),
                self.input() == old(self).input(),
                goal == head_plac(old(self).stream(), old(self).pos(), 1),
                goal == block(self.stream(), self.pos(), 1, record@),
                goal matches Ok((_, k)) ==> spans(old(self).stream(), old(self).pos(), k, 1),
            decreases self.stream().len() - self.pos(),
        {
            proof {
                self.lemma_wf();
            }
            match self.look(1) {
                Look::Close => {
                    return Ok(record);
                },
                Look::Deeper => {
                    self.advance();
                },
                Look::Field(tag) => {
                    if same_text(tag.as_str(), "FORM") {
                        let list = self.take_line_value()?;
                        append_viewed(&mut record.form, split_entries(list.as_str()));
                    } else {
                        return Err(self.fault(FaultKind::UnknownField));
                    }
                },
                Look::Custom(tag) => {
                    let pair = self.parse_custom_tag(tag)?;
                    push_viewed(&mut record.custom_data, pair);
                },
                Look::Other => {
                    return Err(self.fault(FaultKind::UnexpectedToken));
                },
            }
            proof {
                self.lemma_wf();
            }
        }
    }
}

/// The version and the form of the document.
#[derive(Clone, Debug, PartialEq, Eq)]
pub struct GedcomDocument {
    pub version: Option<String>,
    pub form: Option<String>,
    pub custom_data: Vec<CustomData>,
}

/// [`GedcomDocument`] as a mathematical value.
pub struct GedcomDocumentView {
    pub version: Option<Seq<char>>,
    pub form: Option<Seq<char>>,
    pub custom_data: Seq<CustomDataView>,
}

impl View for GedcomDocument {
    type V = GedcomDocumentView;

    open spec fn view(&self) -> GedcomDocumentView {
        GedcomDocumentView {
            version: view_of(self.version),
            form: view_of(self.form),
            custom_data: views(self.custom_data@),
        }
    }
}

impl GedcomDocumentView {
    /// The record with nothing read into it yet.
    pub open spec fn empty() -> GedcomDocumentView {
        GedcomDocumentView {
            version: None,
            form: None,
            custom_data: Seq::empty(),
        }
    }
}

impl GedcomDocument {
    /// The record with nothing read into it yet.
    pub fn new() -> (r: GedcomDocument)
        ensures
            r@ == GedcomDocumentView::empty(),
    {
        GedcomDocument {
            version: None,
            form: None,
            custom_data: no_items(),
        }
    }
}

impl Block for NotedView<GedcomDocumentView> {
    open spec fn field(s: Seq<Lexeme>, floor: u8, acc: Self, j: int) -> Outcome<Self> {
        match s[j].token {
            TokenView::Tag(t) => if t == "VERS"@ {
                then(
                    line_value(s, j),
                    |v: Seq<char>|
                        NotedView {
                            value: GedcomDocumentView { version: Some(v), ..acc.value },
                            ..acc
                        },
                )
            } else if t == "FORM"@ {
                then(
                    line_value(s, j),
                    |v: Seq<char>|
                        NotedView {
                            value: GedcomDocumentView { form: Some(v), ..acc.value },
                            notices: with_notice(
                                acc.notices,
                                form_notice(uppercased(v), s[j].line, v),
                            ),
                        },
                )
            } else {
                Err(fault_at(s, j, FaultKind::UnknownField))
            },
            _ => then(
                custom_pair(s, j),
                |c: CustomDataView|
                    NotedView {
                        value: GedcomDocumentView {
                            custom_data: acc.value.custom_data.push(c),
                            ..acc.value
                        },
                        ..acc
                    },
            ),
        }
    }

    proof fn lemma_field(s: Seq<Lexeme>, floor: u8, acc: Self, j: int) {
    }
}

/// What the `GEDC` line at `i` introduces. A form other than the expected one is
/// kept, and noted.
pub open spec fn gedcom_document(
    s: Seq<Lexeme>,
    i: int,
    floor: u8,
) -> Outcome<NotedView<GedcomDocumentView>> {
    match bare_tag(s, i) {
        Ok((_, k)) => block(s, k, floor, plain(GedcomDocumentView::empty())),
        Err(e) => Err(e),
    }
}

/// What is read from `i` on ends at the first level that is no deeper than `floor`,
/// or at the end of the input: at what follows the record, and not before.
pub proof fn lemma_gedcom_document(s: Seq<Lexeme>, i: int, floor: u8)
    requires
        well_formed(s),
        0 <= i < s.len(),
    ensures
        gedcom_document(s, i, floor) matches Ok((_, k)) ==> spans(s, i, k, floor),
{
    if let Ok((_, k)) = bare_tag(s, i) {
        lemma_block(s, k, floor, plain(GedcomDocumentView::empty()));
    }
}

impl Parser {
    /// Reads what the `GEDC` line introduces on which the parser stands.
    pub(crate) fn parse_gedcom_document(&mut self) -> (r: Result<Noted<GedcomDocument>, ParseFault>)
        requires
            old(self).wf(),
        ensures
            final(self).wf(),
            final(self).input() == old(self).input(),
            agrees(r, final(self).pos(), gedcom_document(old(self).stream(), old(self).pos(), 1)),
            r is Ok ==> spans(old(self).stream(), old(self).pos(), final(self).pos(), 1),
    {
        let ghost goal = gedcom_document(self.stream(), self.pos(), 1);
        proof {
            self.lemma_wf();
            lemma_gedcom_document(self.stream(), self.pos(), 1);
        }
        self.skip_tag()?;
        let mut record = Noted::new(GedcomDocument::new());
        loop
            invariant
                self.wf(),
                self.input() == old(self).input(),
                goal == gedcom_document(old(self).stream(), old(self).pos(), 1),
                goal == block(self.stream(), self.pos(), 1, record@),
                goal matches Ok((_, k)) ==> spans(old(self).stream(), old(self).pos(), k, 1),
            decreases self.stream().len() - self.pos(),
        {
            proof {
                self.lemma_wf();
            }
            match self.look(1) {
                Look::Close => {
                    return Ok(record);
                },
                Look::Deeper => {
                    self.advance();
                },
                Look::Field(tag) => {
                    if same_text(tag.as_str(), "VERS") {
                        record.value.version = Some(self.take_line_value()?);
                    } else if same_text(tag.as_str(), "FORM") {
                        let line = self.line();
                        let form = self.take_line_value()?;
                        let notice = check_form(
                            uppercase(form.as_str()).as_str(),
                            line,
                            form.as_str(),
                        );
                        add_notice(&mut record.notices, notice);
                        record.value.form = Some(form);
                    } else {
                        return Err(self.fault(FaultKind::UnknownField));
                    }
                },
                Look::Custom(tag) => {
                    let pair = self.parse_custom_tag(tag)?;
                    push_viewed(&mut record.value.custom_data, pair);
                },
                Look::Other => {
                    return Err(self.fault(FaultKind::UnexpectedToken));
                },
            }
            proof {
                self.lemma_wf();
            }
        }
    }
}

/// The notice that the form `form` of a document calls for, if any. `upper` is
/// the form in upper case.
pub open spec fn form_notice(upper: Seq<char>, line: u32, form: Seq<char>) -> Option<NoticeView> {
    if upper == "LINEAGE-LINKED"@ {
        None
    } else {
        Some(NoticeView { kind: NoticeKind::FormatWarning, line, text: form })
    }
}

/// The notice that the form `form` of a document calls for, if any. `upper` is
/// the form in upper case.
pub fn check_form(upper: &str, line: u32, form: &str) -> (r: Option<Notice>)
    ensures
        view_of(r) == form_notice(upper@, line, form@),
{
    if same_text(upper, "LINEAGE-LINKED") {
        None
    } else {
        Some(Notice { kind: NoticeKind::FormatWarning, line, text: form.to_owned() })
    }
}

/// The header `header` with what the `GEDC` line at `i` introduces.
pub open spec fn gedcom_data(
    s: Seq<Lexeme>,
    i: int,
    header: NotedView<HeaderView>,
    floor: u8,
) -> Outcome<NotedView<HeaderView>> {
    then(
        gedcom_document(s, i, floor),
        |g: NotedView<GedcomDocumentView>|
            NotedView {
                value: HeaderView { gedcom: Some(g.value), ..header.value },
                notices: header.notices + g.notices,
            },
    )
}

impl Parser {
    /// Reads what the `GEDC` line introduces on which the parser stands, into
    /// the header `header`.
    pub(crate) fn parse_gedcom_data(&mut self, header: Noted<Header>) -> (r: Result<
        Noted<Header>,
        ParseFault,
    >)
        requires
            old(self).wf(),
        ensures
            final(self).wf(),
            final(self).input() == old(self).input(),
            agrees(
                r,
                final(self).pos(),
                gedcom_data(old(self).stream(), old(self).pos(), header@, 1),
            ),
            r is Ok ==> spans(old(self).stream(), old(self).pos(), final(self).pos(), 1),
    {
        let found = self.parse_gedcom_document()?;
        let mut header = header;
        header.value.gedcom = Some(found.value);
        append_viewed(&mut header.notices, found.notices);
        Ok(header)
    }
}

/// The header of a document.
#[derive(Clone, Debug, PartialEq, Eq)]
pub struct Header {
    pub gedcom: Option<GedcomDocument>,
    pub source: Option<HeadSource>,
    pub destination: Option<String>,
    pub date: Option<Date>,
    pub submitter_tag: Option<String>,
    pub submission_tag: Option<String>,
    pub filename: Option<String>,
    pub copyright: Option<Copyright>,
    pub encoding: Option<Encoding>,
    pub language: Option<String>,
    pub note: Option<Note>,
    pub place: Option<HeadPlac>,
    pub custom_data: Vec<CustomData>,
}

/// [`Header`] as a mathematical value.
pub struct HeaderView {
    pub gedcom: Option<GedcomDocumentView>,
    pub source: Option<HeadSourceView>,
    pub destination: Option<Seq<char>>,
    pub date: Option<DateView>,
    pub submitter_tag: Option<Seq<char>>,
    pub submission_tag: Option<Seq<char>>,
    pub filename: Option<Seq<char>>,
    pub copyright: Option<CopyrightView>,
    pub encoding: Option<EncodingView>,
    pub language: Option<Seq<char>>,
    pub note: Option<NoteView>,
    pub place: Option<HeadPlacView>,
    pub custom_data: Seq<CustomDataView>,
}

impl View for Header {
    type V = HeaderView;

    open spec fn view(&self) -> HeaderView {
        HeaderView {
            gedcom: view_of(self.gedcom),
            source: view_of(self.source),
            destination: view_of(self.destination),
            date: view_of(self.date),
            submitter_tag: view_of(self.submitter_tag),
            submission_tag: view_of(self.submission_tag),
            filename: view_of(self.filename),
            copyright: view_of(self.copyright),
            encoding: view_of(self.encoding),
            language: view_of(self.language),
            note: view_of(self.note),
            place: view_of(self.place),
            custom_data: views(self.custom_data@),
        }
    }
}

impl HeaderView {
    /// The record with nothing read into it yet.
    pub open spec fn empty() -> HeaderView {
        HeaderView {
            gedcom: None,
            source: None,
            destination: None,
            date: None,
            submitter_tag: None,
            submission_tag: None,
            filename: None,
            copyright: None,
            encoding: None,
            language: None,
            note: None,
            place: None,
            custom_data: Seq::empty(),
        }
    }
}

impl Header {
    /// The record with nothing read into it yet.
    pub fn new() -> (r: Header)
        ensures
            r@ == HeaderView::empty(),
    {
        Header {
            gedcom: None,
            source: None,
            destination: None,
            date: None,
            submitter_tag: None,
            submission_tag: None,
            filename: None,
            copyright: None,
            encoding: None,
            language: None,
            note: None,
            place: None,
            custom_data: no_items(),
        }
    }
}

impl Block for NotedView<HeaderView> {
    open spec fn field(s: Seq<Lexeme>, floor: u8, acc: Self, j: int) -> Outcome<Self> {
        match s[j].token {
            TokenView::Tag(t) => if t == "GEDC"@ {
                gedcom_data(s, j, acc, deeper(floor))
            } else if t == "SOUR"@ {
                then(
                    head_source(s, j, deeper(floor)),
                    |v: HeadSourceView|
                        NotedView { value: HeaderView { source: Some(v), ..acc.value }, ..acc },
                )
            } else if t == "DEST"@ {
                then(
                    line_value(s, j),
                    |v: Seq<char>|
                        NotedView {
                            value: HeaderView { destination: Some(v), ..acc.value },
                            ..acc
                        },
                )
            } else if t == "DATE"@ {
                then(
                    date(s, j, deeper(floor)),
                    |v: DateView|
                        NotedView { value: HeaderView { date: Some(v), ..acc.value }, ..acc },
                )
            } else if t == "SUBM"@ {
                then(
                    line_value(s, j),
                    |v: Seq<char>|
                        NotedView {
                            value: HeaderView { submitter_tag: Some(v), ..acc.value },
                            ..acc
                        },
                )
            } else if t == "SUBN"@ {
                then(
                    line_value(s, j),
                    |v: Seq<char>|
                        NotedView {
                            value: HeaderView { submission_tag: Some(v), ..acc.value },
                            ..acc
                        },
                )
            } else if t == "FILE"@ {
                then(
                    line_value(s, j),
                    |v: Seq<char>|
                        NotedView { value: HeaderView { filename: Some(v), ..acc.value }, ..acc },
                )
            } else if t == "COPR"@ {
                then(
                    copyright(s, j, deeper(floor)),
                    |v: CopyrightView|
                        NotedView { value: HeaderView { copyright: Some(v), ..acc.value }, ..acc },
                )
            } else if t == "CHAR"@ {
                then(
                    encoding(s, j, deeper(floor)),
                    |v: EncodingView|
                        NotedView { value: HeaderView { encoding: Some(v), ..acc.value }, ..acc },
                )
            } else if t == "LANG"@ {
                then(
                    line_value(s, j),
                    |v: Seq<char>|
                        NotedView { value: HeaderView { language: Some(v), ..acc.value }, ..acc },
                )
            } else if t == "NOTE"@ {
                then(
                    note(s, j, deeper(floor)),
                    |v: NoteView|
                        NotedView { value: HeaderView { note: Some(v), ..acc.value }, ..acc },
                )
            } else if t == "PLAC"@ {
                then(
                    head_plac(s, j, deeper(floor)),
                    |v: HeadPlacView|
                        NotedView { value: HeaderView { place: Some(v), ..acc.value }, ..acc },
                )
            } else {
                Err(fault_at(s, j, FaultKind::UnknownField))
            },
            _ => then(
                custom_pair(s, j),
                |c: CustomDataView|
                    NotedView {
                        value: HeaderView {
                            custom_data: acc.value.custom_data.push(c),
                            ..acc.value
                        },
                        ..acc
                    },
            ),
        }
    }

    proof fn lemma_field(s: Seq<Lexeme>, floor: u8, acc: Self, j: int) {
        lemma_gedcom_document(s, j, deeper(floor));
        lemma_head_source(s, j, deeper(floor));
        lemma_date(s, j, deeper(floor));
        lemma_copyright(s, j, deeper(floor));
        lemma_encoding(s, j, deeper(floor));
        lemma_note(s, j, deeper(floor));
        lemma_head_plac(s, j, deeper(floor));
    }
}

/// The header that the `HEAD` line at `i` introduces.
pub open spec fn header(s: Seq<Lexeme>, i: int, floor: u8) -> Outcome<NotedView<HeaderView>> {
    match bare_tag(s, i) {
        Ok((_, k)) => block(s, k, floor, plain(HeaderView::empty())),
        Err(e) => Err(e),
    }
}

/// What is read from `i` on ends at the first level that is no deeper than `floor`,
/// or at the end of the input: at what follows the record, and not before.
pub proof fn lemma_header(s: Seq<Lexeme>, i: int, floor: u8)
    requires
        well_formed(s),
        0 <= i < s.len(),
    ensures
        header(s, i, floor) matches Ok((_, k)) ==> spans(s, i, k, floor),
{
    if let Ok((_, k)) = bare_tag(s, i) {
        lemma_block(s, k, floor, plain(HeaderView::empty()));
    }
}

impl Parser {
    /// Reads the header that the `HEAD` line introduces on which the parser stands.
    pub(crate) fn parse_header(&mut self) -> (r: Result<Noted<Header>, ParseFault>)
        requires
            old(self).wf(),
        ensures
            final(self).wf(),
            final(self).input() == old(self).input(),
            agrees(r, final(self).pos(), header(old(self).stream(), old(self).pos(), 0)),
            r is Ok ==> spans(old(self).stream(), old(self).pos(), final(self).pos(), 0),
    {
        let ghost goal = header(self.stream(), self.pos(), 0);
        proof {
            self.lemma_wf();
            lemma_header(self.stream(), self.pos(), 0);
        }
        self.skip_tag()?;
        let mut record = Noted::new(Header::new());
        loop
            invariant
                self.wf(),
                self.input() == old(self).input(),
                goal == header(old(self).stream(), old(self).pos(), 0),
                goal == block(self.stream(), self.pos(), 0, record@),
                goal matches Ok((_, k)) ==> spans(old(self).stream(), old(self).pos(), k, 0),
            decreases self.stream().len() - self.pos(),
        {
            proof {
                self.lemma_wf();
            }
            match self.look(0) {
                Look::Close => {
                    return Ok(record);
                },
                Look::Deeper => {
                    self.advance();
                },
                Look::Field(tag) => {
                    if same_text(tag.as_str(), "GEDC") {
                        record = self.parse_gedcom_data(record)?;
                    } else if same_text(tag.as_str(), "SOUR") {
                        record.value.source = Some(self.parse_head_source()?);
                    } else if same_text(tag.as_str(), "DEST") {
                        record.value.destination = Some(self.take_line_value()?);
                    } else if same_text(tag.as_str(), "DATE") {
                        record.value.date = Some(self.parse_date(1)?);
                    } else if same_text(tag.as_str(), "SUBM") {
                        record.value.submitter_tag = Some(self.take_line_value()?);
                    } else if same_text(tag.as_str(), "SUBN") {
                        record.value.submission_tag = Some(self.take_line_value()?);
                    } else if same_text(tag.as_str(), "FILE") {
                        record.value.filename = Some(self.take_line_value()?);
                    } else if same_text(tag.as_str(), "COPR") {
                        record.value.copyright = Some(self.parse_copyright(1)?);
                    } else if same_text(tag.as_str(), "CHAR") {
                        record.value.encoding = Some(self.parse_encoding_data()?);
                    } else if same_text(tag.as_str(), "LANG") {
                        record.value.language = Some(self.take_line_value()?);
                    } else if same_text(tag.as_str(), "NOTE") {
                        record.value.note = Some(self.parse_note(1)?);
                    } else if same_text(tag.as_str(), "PLAC") {
                        record.value.place = Some(self.parse_head_plac()?);
                    } else {
                        return Err(self.fault(FaultKind::UnknownField));
                    }
                },
                Look::Custom(tag) => {
                    let pair = self.parse_custom_tag(tag)?;
                    push_viewed(&mut record.value.custom_data, pair);
                },
                Look::Other => {
                    return Err(self.fault(FaultKind::UnexpectedToken));
                },
            }
            proof {
                self.lemma_wf();
            }
        }
    }
}

} // verus!
