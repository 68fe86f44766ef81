//! The core of a reference manager for LaTeX users.
//!
//! Records are read from BibTeX text ([`entries`], [`fields`], [`bibtex`]),
//! named by a slug and a stable identifier ([`id`]), found again by what a
//! user types ([`resolve`]), and written back as BibTeX ([`render`],
//! [`ordering`]). The keys that a document cites are found in its LaTeX
//! source ([`citations`]) and decide which entries of a BibTeX file are kept
//! ([`purge`]).
//!
//! Nothing in this crate reads or writes files or the terminal. Texts come
//! in as strings and records go out as values; [`commands`], [`prompt`] and
//! [`state`] hold what the commands of the program decide once they have
//! read what they need.

pub mod bibtex;
pub mod citations;
pub mod commands;
pub mod entries;
pub mod fields;
pub mod id;
pub mod number;
pub mod ordering;
pub mod project;
pub mod prompt;
pub mod purge;
pub mod reference;
pub mod render;
pub mod resolve;
pub mod search;
pub mod state;
pub mod text;
