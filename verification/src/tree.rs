//! The records of a document, collected.
use crate::family::{Family, FamilyView};
use crate::header::{Header, HeaderView};
use crate::individual::{Individual, IndividualView};
use crate::record::{no_items, push_viewed, views};
use crate::repository::{Repository, RepositoryView};
use crate::source::{Source, SourceView};
use crate::submitter::{Submitter, SubmitterView};
use vstd::prelude::*;

verus! {

/// What a document holds: its header and its records, in the order they were read.
#[derive(Clone, Debug, PartialEq, Eq)]
pub struct GedcomData {
    pub header: Header,
    pub submitters: Vec<Submitter>,
    pub individuals: Vec<Individual>,
    pub families: Vec<Family>,
    pub repositories: Vec<Repository>,
    pub sources: Vec<Source>,
}

/// [`GedcomData`] as a mathematical value.
pub struct GedcomDataView {
    pub header: HeaderView,
    pub submitters: Seq<SubmitterView>,
    pub individuals: Seq<IndividualView>,
    pub families: Seq<FamilyView>,
    pub repositories: Seq<RepositoryView>,
    pub sources: Seq<SourceView>,
}

impl View for GedcomData {
    type V = GedcomDataView;

    open spec fn view(&self) -> GedcomDataView {
        GedcomDataView {
            header: self.header@,
            submitters: views(self.submitters@),
            individuals: views(self.individuals@),
            families: views(self.families@),
            repositories: views(self.repositories@),
            sources: views(self.sources@),
        }
    }
}

impl GedcomDataView {
    /// The record with nothing read into it yet.
    pub open spec fn empty() -> GedcomDataView {
        GedcomDataView {
            header: HeaderView::empty(),
            submitters: Seq::empty(),
            individuals: Seq::empty(),
            families: Seq::empty(),
            repositories: Seq::empty(),
            sources: Seq::empty(),
        }
    }
}

impl GedcomData {
    /// The record with nothing read into it yet.
    pub fn new() -> (r: GedcomData)
        ensures
            r@ == GedcomDataView::empty(),
    {
        GedcomData {
            header: Header::new(),
            submitters: no_items(),
            individuals: no_items(),
            families: no_items(),
            repositories: no_items(),
            sources: no_items(),
        }
    }
}

impl GedcomData {
    /// Adds a family to the document.
    pub fn add_family(&mut self, family: Family)
        ensures
            final(self)@ == (
                GedcomDataView { families: old(self)@.families.push(family@), ..old(self)@ }
            ),
    {
        push_viewed(&mut self.families, family);
    }

    /// Adds a person to the document.
    pub fn add_individual(&mut self, person: Individual)
        ensures
            final(self)@ == (
                GedcomDataView { individuals: old(self)@.individuals.push(person@), ..old(self)@ }
            ),
    {
        push_viewed(&mut self.individuals, person);
    }

    /// Adds a repository to the document.
    pub fn add_repository(&mut self, repository: Repository)
        ensures
            final(self)@ == (
                GedcomDataView {
                    repositories: old(self)@.repositories.push(repository@),
                    ..old(self)@
                }
            ),
    {
        push_viewed(&mut self.repositories, repository);
    }

    /// Adds a source to the document.
    pub fn add_source(&mut self, source: Source)
        ensures
            final(self)@ == (
                GedcomDataView { sources: old(self)@.sources.push(source@), ..old(self)@ }
            ),
    {
        push_viewed(&mut self.sources, source);
    }

    /// Adds a submitter to the document.
    pub fn add_submitter(&mut self, submitter: Submitter)
        ensures
            final(self)@ == (
                GedcomDataView { submitters: old(self)@.submitters.push(submitter@), ..old(self)@ }
            ),
    {
        push_viewed(&mut self.submitters, submitter);
    }
}

} // verus!
