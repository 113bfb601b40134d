//! Persons: their names, their sex, and the families they belong to.
use crate::date::{change_date, lemma_change_date, ChangeDateView};
use crate::event::{event, lemma_event, Event, EventView};
use crate::fault::{FaultKind, ParseFault};
use crate::grammar::{
    bare_tag, block, coded, deeper, fault_at, lemma_block, line_value, spans, then, Block, Outcome,
};
use crate::parser::{agrees, below, Look, Parser};
use crate::record::{
    custom_pair, no_items, push_viewed, view_of, views, CustomData, CustomDataView,
};
use crate::text::{reference, reference_id, same_text, uppercase, uppercased};
use crate::token::{well_formed, Lexeme, TokenView};
use vstd::prelude::*;

verus! {

/// The sex of a person.
#[derive(Clone, Copy, Debug, PartialEq, Eq)]
pub enum Gender {
    Male,
    Female,
    Nonbinary,
    Unknown,
}

impl View for Gender {
    type V = Gender;

    open spec fn view(&self) -> Gender {
        *self
    }
}

/// What the code letter `code` stands for.
pub open spec fn gender_named(code: Seq<char>) -> Option<Gender> {
    if code == "M"@ {
        Some(Gender::Male)
    } else if code == "F"@ {
        Some(Gender::Female)
    } else if code == "N"@ {
        Some(Gender::Nonbinary)
    } else if code == "U"@ {
        Some(Gender::Unknown)
    } else {
        None
    }
}

impl Gender {
    /// What the code letter `code` stands for.
    pub fn from_code(code: &str) -> (r: Option<Gender>)
        ensures
            r == gender_named(code@),
    {
        if same_text(code, "M") {
            Some(Gender::Male)
        } else if same_text(code, "F") {
            Some(Gender::Female)
        } else if same_text(code, "N") {
            Some(Gender::Nonbinary)
        } else if same_text(code, "U") {
            Some(Gender::Unknown)
        } else {
            None
        }
    }
}

/// The sex that the `SEX` line at `j` gives.
pub open spec fn gender(s: Seq<Lexeme>, j: int) -> Outcome<Gender> {
    coded(s, j, |v: Seq<char>| gender_named(v))
}

/// Whether a person is tied to a family as a child or as a spouse.
#[derive(Clone, Copy, Debug, PartialEq, Eq)]
pub enum FamilyLinkType {
    Child,
    Spouse,
}

/// The kind of tie that the tag `tag` introduces.
pub open spec fn link_type(tag: Seq<char>) -> Option<FamilyLinkType> {
    if tag == "FAMC"@ {
        Some(FamilyLinkType::Child)
    } else if tag == "FAMS"@ {
        Some(FamilyLinkType::Spouse)
    } else {
        None
    }
}

impl FamilyLinkType {
    /// The kind of tie that the tag `tag` introduces.
    pub fn from_tag(tag: &str) -> (r: Option<FamilyLinkType>)
        ensures
            r == link_type(tag@),
    {
        if same_text(tag, "FAMC") {
            Some(FamilyLinkType::Child)
        } else if same_text(tag, "FAMS") {
            Some(FamilyLinkType::Spouse)
        } else {
            None
        }
    }
}

/// How a child came into a family.
#[derive(Clone, Copy, Debug, PartialEq, Eq)]
pub enum Pedigree {
    Adopted,
    Birth,
    Foster,
    Sealing,
}

impl View for Pedigree {
    type V = Pedigree;

    open spec fn view(&self) -> Pedigree {
        *self
    }
}

/// What the word `upper`, which is in upper case, says of a child.
pub open spec fn pedigree_named(upper: Seq<char>) -> Option<Pedigree> {
    if upper == "ADOPTED"@ {
        Some(Pedigree::Adopted)
    } else if upper == "BIRTH"@ {
        Some(Pedigree::Birth)
    } else if upper == "FOSTER"@ {
        Some(Pedigree::Foster)
    } else if upper == "SEALING"@ {
        Some(Pedigree::Sealing)
    } else {
        None
    }
}

impl Pedigree {
    /// What the word `upper`, which is in upper case, says of a child.
    pub fn named(upper: &str) -> (r: Option<Pedigree>)
        ensures
            r == pedigree_named(upper@),
    {
        if same_text(upper, "ADOPTED") {
            Some(Pedigree::Adopted)
        } else if same_text(upper, "BIRTH") {
            Some(Pedigree::Birth)
        } else if same_text(upper, "FOSTER") {
            Some(Pedigree::Foster)
        } else if same_text(upper, "SEALING") {
            Some(Pedigree::Sealing)
        } else {
            None
        }
    }
}

/// What the `PEDI` line at `j` says of a child. Upper and lower case are not
/// told apart.
pub open spec fn pedigree(s: Seq<Lexeme>, j: int) -> Outcome<Pedigree> {
    coded(s, j, |v: Seq<char>| pedigree_named(uppercased(v)))
}

/// Whether `tag` introduces an event in the life of a person.
pub open spec fn is_individual_event(tag: Seq<char>) -> bool {
    ||| tag == "ADOP"@
    ||| tag == "BIRT"@
    ||| tag == "BAPM"@
    ||| tag == "BARM"@
    ||| tag == "BASM"@
    ||| tag == "BLES"@
    ||| tag == "BURI"@
    ||| tag == "CENS"@
    ||| tag == "CHR"@
    ||| tag == "CHRA"@
    ||| tag == "CONF"@
    ||| tag == "CREM"@
    ||| tag == "DEAT"@
    ||| tag == "EMIG"@
    ||| tag == "FCOM"@
    ||| tag == "GRAD"@
    ||| tag == "IMMI"@
    ||| tag == "NATU"@
    ||| tag == "ORDN"@
    ||| tag == "RETI"@
    ||| tag == "RESI"@
    ||| tag == "PROB"@
    ||| tag == "WILL"@
    ||| tag == "EVEN"@
}

/// Whether `tag` introduces an event in the life of a person.
pub fn individual_event(tag: &str) -> (r: bool)
    ensures
        r == is_individual_event(tag@),
{
    same_text(tag, "ADOP")
        || same_text(tag, "BIRT")
        || same_text(tag, "BAPM")
        || same_text(tag, "BARM")
        || same_text(tag, "BASM")
        || same_text(tag, "BLES")
        || same_text(tag, "BURI")
        || same_text(tag, "CENS")
        || same_text(tag, "CHR")
        || same_text(tag, "CHRA")
        || same_text(tag, "CONF")
        || same_text(tag, "CREM")
        || same_text(tag, "DEAT")
        || same_text(tag, "EMIG")
        || same_text(tag, "FCOM")
        || same_text(tag, "GRAD")
        || same_text(tag, "IMMI")
        || same_text(tag, "NATU")
        || same_text(tag, "ORDN")
        || same_text(tag, "RETI")
        || same_text(tag, "RESI")
        || same_text(tag, "PROB")
        || same_text(tag, "WILL")
        || same_text(tag, "EVEN")
}

impl Parser {
    /// Reads the sex that the `SEX` line gives on which the parser stands.
    pub(crate) fn parse_gender(&mut self) -> (r: Result<Gender, ParseFault>)
        requires
            old(self).wf(),
        ensures
            final(self).wf(),
            final(self).input() == old(self).input(),
            agrees(r, final(self).pos(), gender(old(self).stream(), old(self).pos())),
    {
        self.skip_tag()?;
        let found = match self.value_here() {
            Some(code) => Gender::from_code(code.as_str()),
            None => {
                return Err(self.fault(FaultKind::UnexpectedToken));
            },
        };
        match found {
            Some(gender) => {
                self.advance();
                Ok(gender)
            },
            None => Err(self.fault(FaultKind::MalformedValue)),
        }
    }

    /// Reads what the `PEDI` line says on which the parser stands.
    pub(crate) fn parse_pedigree(&mut self) -> (r: Result<Pedigree, ParseFault>)
        requires
            old(self).wf(),
        ensures
            final(self).wf(),
            final(self).input() == old(self).input(),
            agrees(r, final(self).pos(), pedigree(old(self).stream(), old(self).pos())),
    {
        self.skip_tag()?;
        let found = match self.value_here() {
            Some(word) => Pedigree::named(uppercase(word.as_str()).as_str()),
            None => {
                return Err(self.fault(FaultKind::UnexpectedToken));
            },
        };
        match found {
            Some(pedigree) => {
                self.advance();
                Ok(pedigree)
            },
            None => Err(self.fault(FaultKind::MalformedValue)),
        }
    }
}

/// A personal name: as written, and in its parts.
#[derive(Clone, Debug, PartialEq, Eq)]
pub struct Name {
    pub value: Option<String>,
    pub given: Option<String>,
    pub surname: Option<String>,
    pub prefix: Option<String>,
    pub surname_prefix: Option<String>,
    pub suffix: Option<String>,
    pub custom_data: Vec<CustomData>,
}

/// [`Name`] as a mathematical value.
pub struct NameView {
    pub value: Option<Seq<char>>,
    pub given: Option<Seq<char>>,
    pub surname: Option<Seq<char>>,
    pub prefix: Option<Seq<char>>,
    pub surname_prefix: Option<Seq<char>>,
    pub suffix: Option<Seq<char>>,
    pub custom_data: Seq<CustomDataView>,
}

impl View for Name {
    type V = NameView;

    open spec fn view(&self) -> NameView {
        NameView {
            value: view_of(self.value),
            given: view_of(self.given),
            surname: view_of(self.surname),
            prefix: view_of(self.prefix),
            surname_prefix: view_of(self.surname_prefix),
            suffix: view_of(self.suffix),
            custom_data: views(self.custom_data@),
        }
    }
}

impl NameView {
    /// The record with nothing read into it yet.
    pub open spec fn empty() -> NameView {
        NameView {
            value: None,
            given: None,
            surname: None,
            prefix: None,
            surname_prefix: None,
            suffix: None,
            custom_data: Seq::empty(),
        }
    }
}

impl Name {
    /// The record with nothing read into it yet.
    pub fn new() -> (r: Name)
        ensures
            r@ == NameView::empty(),
    {
        Name {
            value: None,
            given: None,
            surname: None,
            prefix: None,
            surname_prefix: None,
            suffix: None,
            custom_data: no_items(),
        }
    }
}

impl Block for NameView {
    open spec fn field(s: Seq<Lexeme>, floor: u8, acc: Self, j: int) -> Outcome<Self> {
        match s[j].token {
            TokenView::Tag(t) => if t == "GIVN"@ {
                then(line_value(s, j), |v: Seq<char>| NameView { given: Some(v), ..acc })
            } else if t == "NPFX"@ {
                then(line_value(s, j), |v: Seq<char>| NameView { prefix: Some(v), ..acc })
            } else if t == "NSFX"@ {
                then(line_value(s, j), |v: Seq<char>| NameView { suffix: Some(v), ..acc })
            } else if t == "SPFX"@ {
                then(line_value(s, j), |v: Seq<char>| NameView { surname_prefix: Some(v), ..acc })
            } else if t == "SURN"@ {
                then(line_value(s, j), |v: Seq<char>| NameView { surname: Some(v), ..acc })
            } else {
                Err(fault_at(s, j, FaultKind::UnknownField))
            },
            _ => then(
                custom_pair(s, j),
                |c: CustomDataView| NameView { custom_data: acc.custom_data.push(c), ..acc },
            ),
        }
    }

    proof fn lemma_field(s: Seq<Lexeme>, floor: u8, acc: Self, j: int) {
    }
}

/// The name that the `NAME` line at `i` introduces.
pub open spec fn name(s: Seq<Lexeme>, i: int, floor: u8) -> Outcome<NameView> {
    match line_value(s, i) {
        Ok((v, k)) => block(s, k, floor, NameView { value: Some(v), ..NameView::empty() }),
        Err(e) => Err(e),
    }
}

/// What is read from `i` on ends at the first level that is no deeper than `floor`,
/// or at the end of the input: at what follows the record, and not before.
pub proof fn lemma_name(s: Seq<Lexeme>, i: int, floor: u8)
    requires
        well_formed(s),
        0 <= i < s.len(),
    ensures
        name(s, i, floor) matches Ok((_, k)) ==> spans(s, i, k, floor),
{
    if let Ok((v, k)) = line_value(s, i) {
        lemma_block(s, k, floor, NameView { value: Some(v), ..NameView::empty() });
    }
}

impl Parser {
    /// Reads the name that the `NAME` line introduces on which the parser stands.
    pub(crate) fn parse_name(&mut self, level: u8) -> (r: Result<Name, ParseFault>)
        requires
            old(self).wf(),
        ensures
            final(self).wf(),
            final(self).input() == old(self).input(),
            agrees(r, final(self).pos(), name(old(self).stream(), old(self).pos(), level)),
            r is Ok ==> spans(old(self).stream(), old(self).pos(), final(self).pos(), level),
    {
        let ghost goal = name(self.stream(), self.pos(), level);
        proof {
            self.lemma_wf();
            lemma_name(self.stream(), self.pos(), level);
        }
        let value = self.take_line_value()?;
        let mut record = Name::new();
        record.value = Some(value);
        loop
            invariant
                self.wf(),
                self.input() == old(self).input(),
                goal == name(old(self).stream(), old(self).pos(), level),
                goal == block(self.stream(), self.pos(), level, record@),
                goal matches Ok((_, k)) ==> spans(old(self).stream(), old(self).pos(), k, level),
            decreases self.stream().len() - self.pos(),
        {
            proof {
                self.lemma_wf();
            }
            match self.look(level) {
                Look::Close => {
                    return Ok(record);
                },
                Look::Deeper => {
                    self.advance();
                },
                Look::Field(tag) => {
                    if same_text(tag.as_str(), "GIVN") {
                        record.given = Some(self.take_line_value()?);
                    } else if same_text(tag.as_str(), "NPFX") {
                        record.prefix = Some(self.take_line_value()?);
                    } else if same_text(tag.as_str(), "NSFX") {
                        record.suffix = Some(self.take_line_value()?);
                    } else if same_text(tag.as_str(), "SPFX") {
                        record.surname_prefix = Some(self.take_line_value()?);
                    } else if same_text(tag.as_str(), "SURN") {
                        record.surname = Some(self.take_line_value()?);
                    } else {
                        return Err(self.fault(FaultKind::UnknownField));
                    }
                },
                Look::Custom(tag) => {
                    let pair = self.parse_custom_tag(tag)?;
                    push_viewed(&mut record.custom_data, pair);
                },
                Look::Other => {
                    return Err(self.fault(FaultKind::UnexpectedToken));
                },
            }
            proof {
                self.lemma_wf();
            }
        }
    }
}

/// The tie of a person to a family: as a child or as a spouse.
#[derive(Clone, Debug, PartialEq, Eq)]
pub struct FamilyLink {
    pub xref: String,
    pub link_type: FamilyLinkType,
    pub pedigree: Option<Pedigree>,
    pub custom_data: Vec<CustomData>,
}

/// [`FamilyLink`] as a mathematical value.
pub struct FamilyLinkView {
    pub xref: Seq<char>,
    pub link_type: FamilyLinkType,
    pub pedigree: Option<Pedigree>,
    pub custom_data: Seq<CustomDataView>,
}

impl View for FamilyLink {
    type V = FamilyLinkView;

    open spec fn view(&self) -> FamilyLinkView {
        FamilyLinkView {
            xref: self.xref@,
            link_type: self.link_type,
            pedigree: self.pedigree,
            custom_data: views(self.custom_data@),
        }
    }
}

impl FamilyLinkView {
    /// The record with nothing read into it yet.
    pub open spec fn empty(xref: Seq<char>, link_type: FamilyLinkType) -> FamilyLinkView {
        FamilyLinkView {
            xref: xref,
            link_type: link_type,
            pedigree: None,
            custom_data: Seq::empty(),
        }
    }
}

impl FamilyLink {
    /// The record with nothing read into it yet.
    pub fn new(xref: String, link_type: FamilyLinkType) -> (r: FamilyLink)
        ensures
            r@ == FamilyLinkView::empty(xref@, link_type),
    {
        FamilyLink {
            xref: xref,
            link_type: link_type,
            pedigree: None,
            custom_data: no_items(),
        }
    }
}

impl Block for FamilyLinkView {
    open spec fn field(s: Seq<Lexeme>, floor: u8, acc: Self, j: int) -> Outcome<Self> {
        match s[j].token {
            TokenView::Tag(t) => if t == "PEDI"@ {
                then(pedigree(s, j), |p: Pedigree| FamilyLinkView { pedigree: Some(p), ..acc })
            } else {
                Err(fault_at(s, j, FaultKind::UnknownField))
            },
            _ => then(
                custom_pair(s, j),
                |c: CustomDataView| FamilyLinkView { custom_data: acc.custom_data.push(c), ..acc },
            ),
        }
    }

    proof fn lemma_field(s: Seq<Lexeme>, floor: u8, acc: Self, j: int) {
    }
}

/// The tie that the line at `i` introduces, whose tag is `tag`. The value of the
/// line is the identifier of the family.
pub open spec fn family_link(
    s: Seq<Lexeme>,
    i: int,
    tag: Seq<char>,
    floor: u8,
) -> Outcome<FamilyLinkView> {
    match link_type(tag) {
        Some(kind) => match line_value(s, i) {
            Ok((v, k)) => block(s, k, floor, FamilyLinkView::empty(reference(v), kind)),
            Err(e) => Err(e),
        },
        None => Err(fault_at(s, i, FaultKind::UnknownField)),
    }
}

/// What is read from `i` on ends at the first level that is no deeper than `floor`,
/// or at the end of the input: at what follows the record, and not before.
pub proof fn lemma_family_link(s: Seq<Lexeme>, i: int, tag: Seq<char>, floor: u8)
    requires
        well_formed(s),
        0 <= i < s.len(),
    ensures
        family_link(s, i, tag, floor) matches Ok((_, k)) ==> spans(s, i, k, floor),
{
    if let Some(kind) = link_type(tag) {
        if let Ok((v, k)) = line_value(s, i) {
            lemma_block(s, k, floor, FamilyLinkView::empty(reference(v), kind));
        }
    }
}

impl Parser {
    /// Reads the tie to a family that the line introduces on which the parser stands.
    /// `tag` is the tag of that line.
    pub(crate) fn parse_family_link(
        &mut self,
        tag: &str,
        level: u8,
    ) -> (r: Result<FamilyLink, ParseFault>)
        requires
            old(self).wf(),
        ensures
            final(self).wf(),
            final(self).input() == old(self).input(),
            agrees(
                r,
                final(self).pos(),
                family_link(old(self).stream(), old(self).pos(), tag@, level),
            ),
            r is Ok ==> spans(old(self).stream(), old(self).pos(), final(self).pos(), level),
    {
        let ghost goal = family_link(self.stream(), self.pos(), tag@, level);
        proof {
            self.lemma_wf();
            lemma_family_link(self.stream(), self.pos(), tag@, level);
        }
        let kind = match FamilyLinkType::from_tag(tag) {
            Some(kind) => kind,
            None => {
                return Err(self.fault(FaultKind::UnknownField));
            },
        };
        let value = self.take_line_value()?;
        let mut record = FamilyLink::new(reference_id(value), kind);
        loop
            invariant
                self.wf(),
                self.input() == old(self).input(),
                goal == family_link(old(self).stream(), old(self).pos(), tag@, level),
                goal == block(self.stream(), self.pos(), level, record@),
                goal matches Ok((_, k)) ==> spans(old(self).stream(), old(self).pos(), k, level),
            decreases self.stream().len() - self.pos(),
        {
            proof {
                self.lemma_wf();
            }
            match self.look(level) {
                Look::Close => {
                    return Ok(record);
                },
                Look::Deeper => {
                    self.advance();
                },
                Look::Field(tag) => {
                    if same_text(tag.as_str(), "PEDI") {
                        record.pedigree = Some(self.parse_pedigree()?);
                    } else {
                        return Err(self.fault(FaultKind::UnknownField));
                    }
                },
                Look::Custom(tag) => {
                    let pair = self.parse_custom_tag(tag)?;
                    push_viewed(&mut record.custom_data, pair);
                },
                Look::Other => {
                    return Err(self.fault(FaultKind::UnexpectedToken));
                },
            }
            proof {
                self.lemma_wf();
            }
        }
    }
}

/// A person.
#[derive(Clone, Debug, PartialEq, Eq)]
pub struct Individual {
    pub xref: Option<String>,
    pub name: Option<Name>,
    pub sex: Gender,
    pub events: Vec<Event>,
    pub families: Vec<FamilyLink>,
    pub custom_data: Vec<CustomData>,
    pub last_updated: Option<String>,
}

/// [`Individual`] as a mathematical value.
pub struct IndividualView {
    pub xref: Option<Seq<char>>,
    pub name: Option<NameView>,
    pub sex: Gender,
    pub events: Seq<EventView>,
    pub families: Seq<FamilyLinkView>,
    pub custom_data: Seq<CustomDataView>,
    pub last_updated: Option<Seq<char>>,
}

impl View for Individual {
    type V = IndividualView;

    open spec fn view(&self) -> IndividualView {
        IndividualView {
            xref: view_of(self.xref),
            name: view_of(self.name),
            sex: self.sex,
            events: views(self.events@),
            families: views(self.families@),
            custom_data: views(self.custom_data@),
            last_updated: view_of(self.last_updated),
        }
    }
}

impl IndividualView {
    /// The record with nothing read into it yet.
    pub open spec fn empty(xref: Option<Seq<char>>) -> IndividualView {
        IndividualView {
            xref: xref,
            name: None,
            sex: Gender::Unknown,
            events: Seq::empty(),
            families: Seq::empty(),
            custom_data: Seq::empty(),
            last_updated: None,
        }
    }
}

impl Individual {
    /// The record with nothing read into it yet.
    pub fn new(xref: Option<String>) -> (r: Individual)
        ensures
            r@ == IndividualView::empty(view_of(xref)),
    {
        Individual {
            xref: xref,
            name: None,
            sex: Gender::Unknown,
            events: no_items(),
            families: no_items(),
            custom_data: no_items(),
            last_updated: None,
        }
    }
}

impl Block for IndividualView {
    open spec fn field(s: Seq<Lexeme>, floor: u8, acc: Self, j: int) -> Outcome<Self> {
        match s[j].token {
            TokenView::Tag(t) => if t == "NAME"@ {
                then(
                    name(s, j, deeper(floor)),
                    |v: NameView| IndividualView { name: Some(v), ..acc },
                )
            } else if t == "SEX"@ {
                then(gender(s, j), |g: Gender| IndividualView { sex: g, ..acc })
            } else if is_individual_event(t) {
                then(
                    event(s, j, t, deeper(floor)),
                    |v: EventView| IndividualView { events: acc.events.push(v), ..acc },
                )
            } else if t == "FAMC"@ || t == "FAMS"@ {
                then(
                    family_link(s, j, t, deeper(floor)),
                    |v: FamilyLinkView| IndividualView { families: acc.families.push(v), ..acc },
                )
            } else if t == "CHAN"@ {
                then(
                    change_date(s, j, deeper(floor)),
                    |c: ChangeDateView| IndividualView { last_updated: c.date, ..acc },
                )
            } else {
                Err(fault_at(s, j, FaultKind::UnknownField))
            },
            _ => then(
                custom_pair(s, j),
                |c: CustomDataView| IndividualView { custom_data: acc.custom_data.push(c), ..acc },
            ),
        }
    }

    proof fn lemma_field(s: Seq<Lexeme>, floor: u8, acc: Self, j: int) {
        if let TokenView::Tag(t) = s[j].token {
            lemma_name(s, j, deeper(floor));
            lemma_event(s, j, t, deeper(floor));
            lemma_family_link(s, j, t, deeper(floor));
            lemma_change_date(s, j, deeper(floor));
        }
    }
}

/// The person that the `INDI` line at `i` introduces, with the pointer `xref`.
pub open spec fn individual(
    s: Seq<Lexeme>,
    i: int,
    xref: Option<Seq<char>>,
    floor: u8,
) -> Outcome<IndividualView> {
    match bare_tag(s, i) {
        Ok((_, k)) => block(s, k, floor, IndividualView::empty(xref)),
        Err(e) => Err(e),
    }
}

/// What is read from `i` on ends at the first level that is no deeper than `floor`,
/// or at the end of the input: at what follows the record, and not before.
pub proof fn lemma_individual(s: Seq<Lexeme>, i: int, xref: Option<Seq<char>>, floor: u8)
    requires
        well_formed(s),
        0 <= i < s.len(),
    ensures
        individual(s, i, xref, floor) matches Ok((_, k)) ==> spans(s, i, k, floor),
{
    if let Ok((_, k)) = bare_tag(s, i) {
        lemma_block(s, k, floor, IndividualView::empty(xref));
    }
}

impl Parser {
    /// Reads the person that the `INDI` line introduces on which the parser stands.
    pub(crate) fn parse_individual(
        &mut self,
        level: u8,
        xref: Option<String>,
    ) -> (r: Result<Individual, ParseFault>)
        requires
            old(self).wf(),
        ensures
            final(self).wf(),
            final(self).input() == old(self).input(),
            agrees(
                r,
                final(self).pos(),
                individual(old(self).stream(), old(self).pos(), view_of(xref), level),
            ),
            r is Ok ==> spans(old(self).stream(), old(self).pos(), final(self).pos(), level),
    {
        let ghost goal = individual(self.stream(), self.pos(), view_of(xref), level);
        proof {
            self.lemma_wf();
            lemma_individual(self.stream(), self.pos(), view_of(xref), level);
        }
        self.skip_tag()?;
        let mut record = Individual::new(xref);
        loop
            invariant
                self.wf(),
                self.input() == old(self).input(),
                goal == individual(old(self).stream(), old(self).pos(), view_of(xref), level),
                goal == block(self.stream(), self.pos(), level, record@),
                goal matches Ok((_, k)) ==> spans(old(self).stream(), old(self).pos(), k, level),
            decreases self.stream().len() - self.pos(),
        {
            proof {
                self.lemma_wf();
            }
            match self.look(level) {
                Look::Close => {
                    return Ok(record);
                },
                Look::Deeper => {
                    self.advance();
                },
                Look::Field(tag) => {
                    if same_text(tag.as_str(), "NAME") {
                        record.name = Some(self.parse_name(below(level))?);
                    } else if same_text(tag.as_str(), "SEX") {
                        record.sex = self.parse_gender()?;
                    } else if individual_event(tag.as_str()) {
                        let item = self.parse_event(tag.as_str(), below(level))?;
                        push_viewed(&mut record.events, item);
                    } else if same_text(tag.as_str(), "FAMC") || same_text(tag.as_str(), "FAMS") {
                        let item = self.parse_family_link(tag.as_str(), below(level))?;
                        push_viewed(&mut record.families, item);
                    } else if same_text(tag.as_str(), "CHAN") {
                        let change = self.parse_change_date(below(level))?;
                        record.last_updated = change.date;
                    } else {
                        return Err(self.fault(FaultKind::UnknownField));
                    }
                },
                Look::Custom(tag) => {
                    let pair = self.parse_custom_tag(tag)?;
                    push_viewed(&mut record.custom_data, pair);
                },
                Look::Other => {
                    return Err(self.fault(FaultKind::UnexpectedToken));
                },
            }
            proof {
                self.lemma_wf();
            }
        }
    }
}

} // verus!
