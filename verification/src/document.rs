//! The document as a whole: a sequence of records of depth 0, up to the
//! trailer.
//!
//! Each record begins with the level 0, an optional pointer and a tag. The
//! header, families, persons, repositories, sources and submitters are read.
//! A record with any other tag, or with a custom tag, is passed over up to the
//! next line of depth 0, and noted. The trailer ends the document, whatever
//! follows it.
use crate::family::{family, lemma_family, FamilyView};
use crate::fault::{FaultKind, NoticeKind, NoticeView, NotedView};
use crate::grammar::{fault_at, then, Outcome};
use crate::header::{header, lemma_header, HeaderView};
use crate::individual::{individual, lemma_individual, IndividualView};
use crate::repository::{lemma_repository, repository, RepositoryView};
use crate::source::{lemma_source, source, SourceView};
use crate::submitter::{lemma_submitter, submitter, SubmitterView};
use crate::token::{well_formed, Lexeme, TokenView};
use crate::tree::GedcomDataView;
use vstd::prelude::*;

verus! {

/// A document as far as it has been read, with what was noted on the way.
pub type Document = NotedView<GedcomDataView>;

/// Whether a record that is passed over ends before the token `t`: at a line
/// of depth 0, or where the tokens end.
pub open spec fn ends_skip(t: TokenView) -> bool {
    t == TokenView::Level(0) || t.is_terminal()
}

/// Where the record ends that is passed over from `i` on.
pub open spec fn skip_end(s: Seq<Lexeme>, i: int) -> int
    decreases s.len() - i,
{
    if 0 <= i < s.len() && !ends_skip(s[i].token) {
        skip_end(s, i + 1)
    } else {
        i
    }
}

/// Passing over a record stops at the first line of depth 0: nothing of the
/// record that follows is touched.
pub proof fn lemma_skip_end(s: Seq<Lexeme>, i: int)
    requires
        well_formed(s),
        0 <= i < s.len(),
    ensures
        i <= skip_end(s, i) < s.len(),
        ends_skip(s[skip_end(s, i)].token),
        forall|m: int| i <= m < skip_end(s, i) ==> !ends_skip(#[trigger] s[m].token),
    decreases s.len() - i,
{
    if !ends_skip(s[i].token) {
        lemma_skip_end(s, i + 1);
    }
}

/// The notice that the record with the tag `tag` at `j` was passed over.
pub open spec fn unsupported(s: Seq<Lexeme>, j: int, tag: Seq<char>) -> NoticeView {
    NoticeView { kind: NoticeKind::Unsupported, line: s[j].line, text: tag }
}

/// The document `doc` with one more notice.
pub open spec fn noting(doc: Document, notice: NoticeView) -> Document {
    NotedView { notices: doc.notices.push(notice), ..doc }
}

/// The pointer at `i`, if there is one, and the position after it.
pub open spec fn pointer(s: Seq<Lexeme>, i: int) -> (Option<Seq<char>>, int) {
    match s[i].token {
        TokenView::Pointer(p) => (Some(p), i + 1),
        _ => (None, i),
    }
}

/// The document `doc` after the record has been read whose tag `t` stands at
/// `j`, and whose pointer is `xref`.
pub open spec fn record(
    s: Seq<Lexeme>,
    j: int,
    xref: Option<Seq<char>>,
    t: Seq<char>,
    doc: Document,
) -> Outcome<Document> {
    if t == "HEAD"@ {
        then(
            header(s, j, 0),
            |h: NotedView<HeaderView>|
                NotedView {
                    value: GedcomDataView { header: h.value, ..doc.value },
                    notices: doc.notices + h.notices,
                },
        )
    } else if t == "FAM"@ {
        then(
            family(s, j, xref, 0),
            |f: FamilyView|
                NotedView {
                    value: GedcomDataView { families: doc.value.families.push(f), ..doc.value },
                    ..doc
                },
        )
    } else if t == "INDI"@ {
        then(
            individual(s, j, xref, 0),
            |p: IndividualView|
                NotedView {
                    value: GedcomDataView {
                        individuals: doc.value.individuals.push(p),
                        ..doc.value
                    },
                    ..doc
                },
        )
    } else if t == "REPO"@ {
        then(
            repository(s, j, xref, 0),
            |r: RepositoryView|
                NotedView {
                    value: GedcomDataView {
                        repositories: doc.value.repositories.push(r),
                        ..doc.value
                    },
                    ..doc
                },
        )
    } else if t == "SOUR"@ {
        then(
            source(s, j, xref, 0),
            |r: SourceView|
                NotedView {
                    value: GedcomDataView { sources: doc.value.sources.push(r), ..doc.value },
                    ..doc
                },
        )
    } else if t == "SUBM"@ {
        then(
            submitter(s, j, xref, 0),
            |r: SubmitterView|
                NotedView {
                    value: GedcomDataView { submitters: doc.value.submitters.push(r), ..doc.value },
                    ..doc
                },
        )
    } else {
        Ok((noting(doc, unsupported(s, j, t)), skip_end(s, j + 1)))
    }
}

/// A record of the document is read up to the next line of depth 0, or to
/// where the tokens end.
pub proof fn lemma_record(
    s: Seq<Lexeme>,
    j: int,
    xref: Option<Seq<char>>,
    t: Seq<char>,
    doc: Document,
)
    requires
        well_formed(s),
        0 <= j < s.len(),
        s[j].token == TokenView::Tag(t),
    ensures
        record(s, j, xref, t, doc) matches Ok((_, k)) ==> j < k < s.len() && ends_skip(s[k].token),
{
    lemma_header(s, j, 0);
    lemma_family(s, j, xref, 0);
    lemma_individual(s, j, xref, 0);
    lemma_repository(s, j, xref, 0);
    lemma_source(s, j, xref, 0);
    lemma_submitter(s, j, xref, 0);
    lemma_skip_end(s, j + 1);
}

/// The document `doc` after the records from `i` on have been read, and the
/// position of the trailer.
pub open spec fn document(s: Seq<Lexeme>, i: int, doc: Document) -> Outcome<Document>
    decreases s.len() - i,
    when well_formed(s) && 0 <= i < s.len()
    via document_decreases
{
    match s[i].token {
        TokenView::Level(n) => if n != 0 {
            Err(fault_at(s, i, FaultKind::UnexpectedToken))
        } else {
            let (xref, j) = pointer(s, i + 1);
            match s[j].token {
                TokenView::Tag(t) => if t == "TRLR"@ {
                    Ok((doc, j))
                } else {
                    match record(s, j, xref, t, doc) {
                        Ok((next, k)) => document(s, k, next),
                        Err(e) => Err(e),
                    }
                },
                TokenView::CustomTag(t) => document(
                    s,
                    skip_end(s, j + 1),
                    noting(doc, unsupported(s, j, t)),
                ),
                _ => Err(fault_at(s, j, FaultKind::UnexpectedToken)),
            }
        },
        _ => Err(fault_at(s, i, FaultKind::MissingLevel)),
    }
}

#[via_fn]
proof fn document_decreases(s: Seq<Lexeme>, i: int, doc: Document) {
    if s[i].token is Level {
        let (xref, j) = pointer(s, i + 1);
        match s[j].token {
            TokenView::Tag(t) => {
                lemma_record(s, j, xref, t, doc);
            },
            TokenView::CustomTag(_) => {
                lemma_skip_end(s, j + 1);
            },
            _ => {},
        }
    }
}

} // verus!
