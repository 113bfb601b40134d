//! Repositories.
use crate::address::{address, lemma_address, Address, AddressView};
use crate::fault::{FaultKind, ParseFault};
use crate::grammar::{
    bare_tag, block, deeper, fault_at, lemma_block, line_value, spans, then, Block, Outcome,
};
use crate::parser::{agrees, below, Look, Parser};
use crate::record::{
    custom_pair, no_items, push_viewed, view_of, views, CustomData, CustomDataView,
};
use crate::text::same_text;
use crate::token::{well_formed, Lexeme, TokenView};
use vstd::prelude::*;

verus! {

/// A place where sources are kept.
#[derive(Clone, Debug, PartialEq, Eq)]
pub struct Repository {
    pub xref: Option<String>,
    pub name: Option<String>,
    pub address: Option<Address>,
    pub custom_data: Vec<CustomData>,
}

/// [`Repository`] as a mathematical value.
pub struct RepositoryView {
    pub xref: Option<Seq<char>>,
    pub name: Option<Seq<char>>,
    pub address: Option<AddressView>,
    pub custom_data: Seq<CustomDataView>,
}

impl View for Repository {
    type V = RepositoryView;

    open spec fn view(&self) -> RepositoryView {
        RepositoryView {
            xref: view_of(self.xref),
            name: view_of(self.name),
            address: view_of(self.address),
            custom_data: views(self.custom_data@),
        }
    }
}

impl RepositoryView {
    /// The record with nothing read into it yet.
    pub open spec fn empty(xref: Option<Seq<char>>) -> RepositoryView {
        RepositoryView {
            xref: xref,
            name: None,
            address: None,
            custom_data: Seq::empty(),
        }
    }
}

impl Repository {
    /// The record with nothing read into it yet.
    pub fn new(xref: Option<String>) -> (r: Repository)
        ensures
            r@ == RepositoryView::empty(view_of(xref)),
    {
        Repository {
            xref: xref,
            name: None,
            address: None,
            custom_data: no_items(),
        }
    }
}

impl Block for RepositoryView {
    open spec fn field(s: Seq<Lexeme>, floor: u8, acc: Self, j: int) -> Outcome<Self> {
        match s[j].token {
            TokenView::Tag(t) => if t == "NAME"@ {
                then(line_value(s, j), |v: Seq<char>| RepositoryView { name: Some(v), ..acc })
            } else if t == "ADDR"@ {
                then(
                    address(s, j, deeper(floor)),
                    |v: AddressView| RepositoryView { address: Some(v), ..acc },
                )
            } else {
                Err(fault_at(s, j, FaultKind::UnknownField))
            },
            _ => then(
                custom_pair(s, j),
                |c: CustomDataView| RepositoryView { custom_data: acc.custom_data.push(c), ..acc },
            ),
        }
    }

    proof fn lemma_field(s: Seq<Lexeme>, floor: u8, acc: Self, j: int) {
        lemma_address(s, j, deeper(floor));
    }
}

/// The repository that the `REPO` line at `i` introduces, with the pointer `xref`.
pub open spec fn repository(
    s: Seq<Lexeme>,
    i: int,
    xref: Option<Seq<char>>,
    floor: u8,
) -> Outcome<RepositoryView> {
    match bare_tag(s, i) {
        Ok((_, k)) => block(s, k, floor, RepositoryView::empty(xref)),
        Err(e) => Err(e),
    }
}

/// What is read from `i` on ends at the first level that is no deeper than `floor`,
/// or at the end of the input: at what follows the record, and not before.
pub proof fn lemma_repository(s: Seq<Lexeme>, i: int, xref: Option<Seq<char>>, floor: u8)
    requires
        well_formed(s),
        0 <= i < s.len(),
    ensures
        repository(s, i, xref, floor) matches Ok((_, k)) ==> spans(s, i, k, floor),
{
    if let Ok((_, k)) = bare_tag(s, i) {
        lemma_block(s, k, floor, RepositoryView::empty(xref));
    }
}

impl Parser {
    /// Reads the repository that the `REPO` line introduces on which the parser stands.
    pub(crate) fn parse_repository(
        &mut self,
        level: u8,
        xref: Option<String>,
    ) -> (r: Result<Repository, ParseFault>)
        requires
            old(self).wf(),
        ensures
            final(self).wf(),
            final(self).input() == old(self).input(),
            agrees(
                r,
                final(self).pos(),
                repository(old(self).stream(), old(self).pos(), view_of(xref), level),
            ),
            r is Ok ==> spans(old(self).stream(), old(self).pos(), final(self).pos(), level),
    {
        let ghost goal = repository(self.stream(), self.pos(), view_of(xref), level);
        proof {
            self.lemma_wf();
            lemma_repository(self.stream(), self.pos(), view_of(xref), level);
        }
        self.skip_tag()?;
        let mut record = Repository::new(xref);
        loop
            invariant
                self.wf(),
                self.input() == old(self).input(),
                goal == repository(old(self).stream(), old(self).pos(), view_of(xref), level),
                goal == block(self.stream(), self.pos(), level, record@),
                goal matches Ok((_, k)) ==> spans(old(self).stream(), old(self).pos(), k, level),
            decreases self.stream().len() - self.pos(),
        {
            proof {
                self.lemma_wf();
            }
            match self.look(level) {
                Look::Close => {
                    return Ok(record);
                },
                Look::Deeper => {
                    self.advance();
                },
                Look::Field(tag) => {
                    if same_text(tag.as_str(), "NAME") {
                        record.name = Some(self.take_line_value()?);
                    } else if same_text(tag.as_str(), "ADDR") {
                        record.address = Some(self.parse_address(below(level))?);
                    } else {
                        return Err(self.fault(FaultKind::UnknownField));
                    }
                },
                Look::Custom(tag) => {
                    let pair = self.parse_custom_tag(tag)?;
                    push_viewed(&mut record.custom_data, pair);
                },
                Look::Other => {
                    return Err(self.fault(FaultKind::UnexpectedToken));
                },
            }
            proof {
                self.lemma_wf();
            }
        }
    }
}

} // verus!
