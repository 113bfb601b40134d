//! Notes and their translations.
use crate::fault::{FaultKind, ParseFault};
use crate::grammar::{
    block, deeper, fault_at, lemma_block, line_value, spans, then, Block, Outcome,
};
use crate::parser::{agrees, below, Look, Parser};
use crate::record::{
    continued, custom_pair, extend, no_items, push_viewed, view_of, views, CustomData,
    CustomDataView,
};
use crate::text::same_text;
use crate::token::{well_formed, Lexeme, TokenView};
use vstd::prelude::*;

verus! {

/// A note in another language or form.
#[derive(Clone, Debug, PartialEq, Eq)]
pub struct Translation {
    pub value: Option<String>,
    pub mime: Option<String>,
    pub language: Option<String>,
    pub custom_data: Vec<CustomData>,
}

/// [`Translation`] as a mathematical value.
pub struct TranslationView {
    pub value: Option<Seq<char>>,
    pub mime: Option<Seq<char>>,
    pub language: Option<Seq<char>>,
    pub custom_data: Seq<CustomDataView>,
}

impl View for Translation {
    type V = TranslationView;

    open spec fn view(&self) -> TranslationView {
        TranslationView {
            value: view_of(self.value),
            mime: view_of(self.mime),
            language: view_of(self.language),
            custom_data: views(self.custom_data@),
        }
    }
}

impl TranslationView {
    /// The record with nothing read into it yet.
    pub open spec fn empty() -> TranslationView {
        TranslationView {
            value: None,
            mime: None,
            language: None,
            custom_data: Seq::empty(),
        }
    }
}

impl Translation {
    /// The record with nothing read into it yet.
    pub fn new() -> (r: Translation)
        ensures
            r@ == TranslationView::empty(),
    {
        Translation {
            value: None,
            mime: None,
            language: None,
            custom_data: no_items(),
        }
    }
}

impl Block for TranslationView {
    open spec fn field(s: Seq<Lexeme>, floor: u8, acc: Self, j: int) -> Outcome<Self> {
        match s[j].token {
            TokenView::Tag(t) => if t == "MIME"@ {
                then(line_value(s, j), |v: Seq<char>| TranslationView { mime: Some(v), ..acc })
            } else if t == "LANG"@ {
                then(line_value(s, j), |v: Seq<char>| TranslationView { language: Some(v), ..acc })
            } else {
                Err(fault_at(s, j, FaultKind::UnknownField))
            },
            _ => then(
                custom_pair(s, j),
                |c: CustomDataView| TranslationView { custom_data: acc.custom_data.push(c), ..acc },
            ),
        }
    }

    proof fn lemma_field(s: Seq<Lexeme>, floor: u8, acc: Self, j: int) {
    }
}

/// The translation that the `TRAN` line at `i` introduces.
pub open spec fn translation(s: Seq<Lexeme>, i: int, floor: u8) -> Outcome<TranslationView> {
    match line_value(s, i) {
        Ok((v, k)) => block(
            s,
            k,
            floor,
            TranslationView { value: Some(v), ..TranslationView::empty() },
        ),
        Err(e) => Err(e),
    }
}

/// What is read from `i` on ends at the first level that is no deeper than `floor`,
/// or at the end of the input: at what follows the record, and not before.
pub proof fn lemma_translation(s: Seq<Lexeme>, i: int, floor: u8)
    requires
        well_formed(s),
        0 <= i < s.len(),
    ensures
        translation(s, i, floor) matches Ok((_, k)) ==> spans(s, i, k, floor),
{
    if let Ok((v, k)) = line_value(s, i) {
        lemma_block(s, k, floor, TranslationView { value: Some(v), ..TranslationView::empty() });
    }
}

impl Parser {
    /// Reads the translation that the `TRAN` line introduces on which the parser stands.
    pub(crate) fn parse_translation(&mut self, level: u8) -> (r: Result<Translation, ParseFault>)
        requires
            old(self).wf(),
        ensures
            final(self).wf(),
            final(self).input() == old(self).input(),
            agrees(r, final(self).pos(), translation(old(self).stream(), old(self).pos(), level)),
            r is Ok ==> spans(old(self).stream(), old(self).pos(), final(self).pos(), level),
    {
        let ghost goal = translation(self.stream(), self.pos(), level);
        proof {
            self.lemma_wf();
            lemma_translation(self.stream(), self.pos(), level);
        }
        let value = self.take_line_value()?;
        let mut record = Translation::new();
        record.value = Some(value);
        loop
            invariant
                self.wf(),
                self.input() == old(self).input(),
                goal == translation(old(self).stream(), old(self).pos(), level),
                goal == block(self.stream(), self.pos(), level, record@),
                goal matches Ok((_, k)) ==> spans(old(self).stream(), old(self).pos(), k, level),
            decreases self.stream().len() - self.pos(),
        {
            proof {
                self.lemma_wf();
            }
            match self.look(level) {
                Look::Close => {
                    return Ok(record);
                },
                Look::Deeper => {
                    self.advance();
                },
                Look::Field(tag) => {
                    if same_text(tag.as_str(), "MIME") {
                        record.mime = Some(self.take_line_value()?);
                    } else if same_text(tag.as_str(), "LANG") {
                        record.language = Some(self.take_line_value()?);
                    } else {
                        return Err(self.fault(FaultKind::UnknownField));
                    }
                },
                Look::Custom(tag) => {
                    let pair = self.parse_custom_tag(tag)?;
                    push_viewed(&mut record.custom_data, pair);
                },
                Look::Other => {
                    return Err(self.fault(FaultKind::UnexpectedToken));
                },
            }
            proof {
                self.lemma_wf();
            }
        }
    }
}

/// A note: free text, which may run over several lines.
#[derive(Clone, Debug, PartialEq, Eq)]
pub struct Note {
    pub value: Option<String>,
    pub mime: Option<String>,
    pub translation: Option<Translation>,
    pub language: Option<String>,
    pub custom_data: Vec<CustomData>,
}

/// [`Note`] as a mathematical value.
pub struct NoteView {
    pub value: Option<Seq<char>>,
    pub mime: Option<Seq<char>>,
    pub translation: Option<TranslationView>,
    pub language: Option<Seq<char>>,
    pub custom_data: Seq<CustomDataView>,
}

impl View for Note {
    type V = NoteView;

    open spec fn view(&self) -> NoteView {
        NoteView {
            value: view_of(self.value),
            mime: view_of(self.mime),
            translation: view_of(self.translation),
            language: view_of(self.language),
            custom_data: views(self.custom_data@),
        }
    }
}

impl NoteView {
    /// The record with nothing read into it yet.
    pub open spec fn empty() -> NoteView {
        NoteView {
            value: None,
            mime: None,
            translation: None,
            language: None,
            custom_data: Seq::empty(),
        }
    }
}

impl Note {
    /// The record with nothing read into it yet.
    pub fn new() -> (r: Note)
        ensures
            r@ == NoteView::empty(),
    {
        Note {
            value: None,
            mime: None,
            translation: None,
            language: None,
            custom_data: no_items(),
        }
    }
}

impl Block for NoteView {
    open spec fn field(s: Seq<Lexeme>, floor: u8, acc: Self, j: int) -> Outcome<Self> {
        match s[j].token {
            TokenView::Tag(t) => if t == "MIME"@ {
                then(line_value(s, j), |v: Seq<char>| NoteView { mime: Some(v), ..acc })
            } else if t == "TRAN"@ {
                then(
                    translation(s, j, deeper(floor)),
                    |v: TranslationView| NoteView { translation: Some(v), ..acc },
                )
            } else if t == "LANG"@ {
                then(line_value(s, j), |v: Seq<char>| NoteView { language: Some(v), ..acc })
            } else if t == "CONT"@ {
                then(
                    line_value(s, j),
                    |v: Seq<char>| NoteView { value: Some(continued(acc.value, '\n', v)), ..acc },
                )
            } else if t == "CONC"@ {
                then(
                    line_value(s, j),
                    |v: Seq<char>| NoteView { value: Some(continued(acc.value, ' ', v)), ..acc },
                )
            } else {
                Err(fault_at(s, j, FaultKind::UnknownField))
            },
            _ => then(
                custom_pair(s, j),
                |c: CustomDataView| NoteView { custom_data: acc.custom_data.push(c), ..acc },
            ),
        }
    }

    proof fn lemma_field(s: Seq<Lexeme>, floor: u8, acc: Self, j: int) {
        lemma_translation(s, j, deeper(floor));
    }
}

/// The note that the `NOTE` line at `i` introduces.
pub open spec fn note(s: Seq<Lexeme>, i: int, floor: u8) -> Outcome<NoteView> {
    match line_value(s, i) {
        Ok((v, k)) => block(s, k, floor, NoteView { value: Some(v), ..NoteView::empty() }),
        Err(e) => Err(e),
    }
}

/// What is read from `i` on ends at the first level that is no deeper than `floor`,
/// or at the end of the input: at what follows the record, and not before.
pub proof fn lemma_note(s: Seq<Lexeme>, i: int, floor: u8)
    requires
        well_formed(s),
        0 <= i < s.len(),
    ensures
        note(s, i, floor) matches Ok((_, k)) ==> spans(s, i, k, floor),
{
    if let Ok((v, k)) = line_value(s, i) {
        lemma_block(s, k, floor, NoteView { value: Some(v), ..NoteView::empty() });
    }
}

impl Parser {
    /// Reads the note that the `NOTE` line introduces on which the parser stands.
    pub(crate) fn parse_note(&mut self, level: u8) -> (r: Result<Note, ParseFault>)
        requires
            old(self).wf(),
        ensures
            final(self).wf(),
            final(self).input() == old(self).input(),
            agrees(r, final(self).pos(), note(old(self).stream(), old(self).pos(), level)),
            r is Ok ==> spans(old(self).stream(), old(self).pos(), final(self).pos(), level),
    {
        let ghost goal = note(self.stream(), self.pos(), level);
        proof {
            self.lemma_wf();
            lemma_note(self.stream(), self.pos(), level);
        }
        let value = self.take_line_value()?;
        let mut record = Note::new();
        record.value = Some(value);
        loop
            invariant
                self.wf(),
                self.input() == old(self).input(),
                goal == note(old(self).stream(), old(self).pos(), level),
                goal == block(self.stream(), self.pos(), level, record@),
                goal matches Ok((_, k)) ==> spans(old(self).stream(), old(self).pos(), k, level),
            decreases self.stream().len() - self.pos(),
        {
            proof {
                self.lemma_wf();
            }
            match self.look(level) {
                Look::Close => {
                    return Ok(record);
                },
                Look::Deeper => {
                    self.advance();
                },
                Look::Field(tag) => {
                    if same_text(tag.as_str(), "MIME") {
                        record.mime = Some(self.take_line_value()?);
                    } else if same_text(tag.as_str(), "TRAN") {
                        record.translation = Some(self.parse_translation(below(level))?);
                    } else if same_text(tag.as_str(), "LANG") {
                        record.language = Some(self.take_line_value()?);
                    } else if same_text(tag.as_str(), "CONT") {
                        let line = self.take_line_value()?;
                        extend(&mut record.value, '\n', line);
                    } else if same_text(tag.as_str(), "CONC") {
                        let line = self.take_line_value()?;
                        extend(&mut record.value, ' ', line);
                    } else {
                        return Err(self.fault(FaultKind::UnknownField));
                    }
                },
                Look::Custom(tag) => {
                    let pair = self.parse_custom_tag(tag)?;
                    push_viewed(&mut record.custom_data, pair);
                },
                Look::Other => {
                    return Err(self.fault(FaultKind::UnexpectedToken));
                },
            }
            proof {
                self.lemma_wf();
            }
        }
    }
}

} // verus!
