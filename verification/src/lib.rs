//! A reader for GEDCOM genealogy documents.
//!
//! A document is a list of lines. Each line carries a nesting level, an
//! optional pointer, a tag and an optional value; there are no brackets, so the
//! shape of the tree is recovered from the levels alone.
//!
//! The [`tokenizer`] turns characters into tokens, and the [`parser`] builds
//! typed records from them. What they produce is defined as functions of the
//! characters and of the token stream: the tokens in [`lexicon`], the shape
//! that all records share in [`grammar`], the fields of each record beside its
//! type, and the document as a whole in [`document`]. The parser is proved to
//! compute exactly these functions, and never to panic.
//!
//! A parse ends in the records together with the notices that were collected
//! ([`fault::Noted`]), or in the first fault ([`fault::ParseFault`]).
pub mod address;
pub mod date;
pub mod document;
pub mod event;
pub mod family;
pub mod fault;
pub mod grammar;
pub mod header;
pub mod individual;
pub mod lexicon;
pub mod note;
pub mod parser;
pub mod record;
pub mod repository;
pub mod source;
pub mod submitter;
pub mod text;
pub mod token;
pub mod tokenizer;
pub mod tree;
