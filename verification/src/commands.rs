//! What the commands decide, apart from what they read and write.

use vstd::prelude::*;
use crate::bibtex::{names_in, split_names};
use crate::id::{make_ref_id, slug};
use crate::number::{parse_u16, parsed_u16};
use crate::ordering::{id_keyed, lemma_ordered_in_order, ordered, sort_ids, values};
use crate::project::{holds, Project};
use crate::prompt::{confirmed_by_default, kind_answered, kind_or, split_tags, yes_or_empty};
use crate::reference::{
    opt_record, Identifiers, IdentifiersView, RefKind, Reference, ReferenceView, Venue, VenueView,
};
use crate::resolve::{
    project_names, project_verdict, resolution, resolve_project, Resolution, ResolveProjectError,
};
use crate::text::{
    contains_text, ends_with, has_suffix, has_text, items_in, opt_str, opt_text, same_text, texts,
    to_chars,
};

verus! {

/// How `add` gets its records.
#[derive(Clone, Copy, Debug, PartialEq, Eq, Structural)]
pub enum AddMode {
    /// By asking for each field.
    Interactive,
    /// From the BibTeX files named as arguments.
    BibFiles,
    /// From a title, authors and a year given as arguments.
    Manual,
    /// From BibTeX text on standard input.
    Stdin,
}

/// How `add` gets its records: by asking where that was requested; from
/// files where there are arguments and all of them name BibTeX files that
/// exist; from the arguments where there are two or more; and from standard
/// input otherwise.
pub fn add_mode(interactive: bool, args: usize, all_bib_files: bool) -> (mode: AddMode)
    ensures
        mode == if interactive {
            AddMode::Interactive
        } else if args > 0 && all_bib_files {
            AddMode::BibFiles
        } else if args >= 2 {
            AddMode::Manual
        } else {
            AddMode::Stdin
        },
{
    if interactive {
        AddMode::Interactive
    } else if args > 0 && all_bib_files {
        AddMode::BibFiles
    } else if args >= 2 {
        AddMode::Manual
    } else {
        AddMode::Stdin
    }
}

/// Whether an argument has the name of a BibTeX file.
pub fn has_bib_extension(arg: &str) -> (r: bool)
    ensures
        r == ends_with(arg@, ".bib"@),
{
    has_suffix(&to_chars(arg), &to_chars(".bib"))
}

/// The year that an optional text gives.
pub open spec fn year_given(raw: Option<Seq<char>>) -> Option<u16> {
    match raw {
        Some(y) => parsed_u16(y),
        None => None,
    }
}

/// The article that `add` makes of a title, authors and a year; none where
/// the authors hold no name.
pub open spec fn manual(
    title: Seq<char>,
    authors_raw: Seq<char>,
    year_raw: Option<Seq<char>>,
    sid: Seq<char>,
) -> Option<ReferenceView> {
    let authors = names_in(authors_raw);
    let year = year_given(year_raw);
    if authors.len() == 0 {
        None
    } else {
        Some(
            ReferenceView {
                id: slug(authors, year, title),
                sid,
                kind: RefKind::Article,
                title,
                authors,
                editors: Seq::empty(),
                year,
                identifiers: IdentifiersView::none(),
                venue: Some(VenueView::none()),
                tags: Seq::empty(),
                notes: None,
                attachments: Seq::empty(),
            },
        )
    }
}

fn year_of(raw: Option<&str>) -> (year: Option<u16>)
    ensures
        year == year_given(opt_str(raw)),
{
    match raw {
        Some(y) => parse_u16(&to_chars(y)),
        None => None,
    }
}

/// The article that `add` makes of a title, authors and a year.
pub fn manual_reference(title: &str, authors_raw: &str, year_raw: Option<&str>, sid: String) -> (r:
    Option<Reference>)
    ensures
        opt_record(r) == manual(title@, authors_raw@, opt_str(year_raw), sid@),
{
    let authors = split_names(authors_raw);
    if authors.len() == 0 {
        return None;
    }
    let year = year_of(year_raw);
    let id = make_ref_id(authors.as_slice(), year, title);
    let r = Reference {
        id,
        sid,
        kind: RefKind::Article,
        title: title.to_owned(),
        authors,
        editors: Vec::new(),
        year,
        identifiers: Identifiers::default(),
        venue: Some(Venue::empty()),
        tags: Vec::new(),
        notes: None,
        attachments: Vec::new(),
    };
    proof {
        assert(r@.editors =~= Seq::empty());
        assert(r@.tags =~= Seq::empty());
        assert(r@.attachments =~= Seq::empty());
    }
    Some(r)
}

/// What was answered when `add` asked for each field of a record.
#[derive(Clone, Debug, PartialEq, Eq)]
pub struct Answers {
    pub title: String,
    pub authors: String,
    pub year: Option<String>,
    pub kind: Option<String>,
    pub editors: Option<String>,
    pub venue: Venue,
    pub identifiers: Identifiers,
    pub tags: Option<String>,
    pub notes: Option<String>,
}

/// What an `Answers` value holds.
pub struct AnswersView {
    pub title: Seq<char>,
    pub authors: Seq<char>,
    pub year: Option<Seq<char>>,
    pub kind: Option<Seq<char>>,
    pub editors: Option<Seq<char>>,
    pub venue: VenueView,
    pub identifiers: IdentifiersView,
    pub tags: Option<Seq<char>>,
    pub notes: Option<Seq<char>>,
}

impl View for Answers {
    type V = AnswersView;

    open spec fn view(&self) -> AnswersView {
        AnswersView {
            title: self.title@,
            authors: self.authors@,
            year: opt_text(self.year),
            kind: opt_text(self.kind),
            editors: opt_text(self.editors),
            venue: self.venue@,
            identifiers: self.identifiers@,
            tags: opt_text(self.tags),
            notes: opt_text(self.notes),
        }
    }
}

/// The record that the answers describe. Its kind is `Article` unless
/// another kind was named, and its identifier is the slug of its first
/// author, year and title.
pub open spec fn answered_record(a: AnswersView, sid: Seq<char>) -> ReferenceView {
    let authors = names_in(a.authors);
    let year = year_given(a.year);
    ReferenceView {
        id: slug(authors, year, a.title),
        sid,
        kind: match a.kind {
            Some(k) => kind_answered(k, RefKind::Article),
            None => RefKind::Article,
        },
        title: a.title,
        authors,
        editors: match a.editors {
            Some(e) => names_in(e),
            None => Seq::empty(),
        },
        year,
        identifiers: a.identifiers,
        venue: Some(a.venue),
        tags: match a.tags {
            Some(t) => items_in(t, ","@),
            None => Seq::empty(),
        },
        notes: a.notes,
        attachments: Seq::empty(),
    }
}

/// The record that the answers describe.
pub fn reference_from_answers(a: Answers, sid: String) -> (r: Reference)
    ensures
        r@ == answered_record(a@, sid@),
{
    let authors = split_names(a.authors.as_str());
    let year = match &a.year {
        Some(y) => parse_u16(&to_chars(y.as_str())),
        None => None,
    };
    let kind = match &a.kind {
        Some(k) => kind_or(k.as_str(), RefKind::Article),
        None => RefKind::Article,
    };
    let editors = match &a.editors {
        Some(e) => split_names(e.as_str()),
        None => Vec::new(),
    };
    let tags = match &a.tags {
        Some(t) => split_tags(t.as_str()),
        None => Vec::new(),
    };
    let id = make_ref_id(authors.as_slice(), year, a.title.as_str());
    let r = Reference {
        id,
        sid,
        kind,
        title: a.title,
        authors,
        editors,
        year,
        identifiers: a.identifiers,
        venue: Some(a.venue),
        tags,
        notes: a.notes,
        attachments: Vec::new(),
    };
    proof {
        assert(a.editors is None ==> r@.editors =~= Seq::empty());
        assert(a.tags is None ==> r@.tags =~= Seq::empty());
        assert(r@.attachments =~= Seq::empty());
    }
    r
}

/// The slug that a record should have by its first author, year and title.
pub fn slug_of(r: &Reference) -> (id: String)
    ensures
        id@ == slug(r@.authors, r@.year, r@.title),
{
    make_ref_id(r.authors.as_slice(), r.year, r.title.as_str())
}

/// What an edit does to the identifier of a record.
#[derive(Clone, Debug, PartialEq, Eq)]
pub enum EditOutcome {
    /// The identifier stays: it is still the slug of the record.
    Keep,
    /// The record is renamed to this identifier, its new slug.
    Rename(String),
    /// The edit is given up: the slug has changed and the change was denied.
    Abort,
}

/// What an `EditOutcome` value holds.
pub enum EditOutcomeView {
    Keep,
    Rename(Seq<char>),
    Abort,
}

impl View for EditOutcome {
    type V = EditOutcomeView;

    open spec fn view(&self) -> EditOutcomeView {
        match self {
            EditOutcome::Keep => EditOutcomeView::Keep,
            EditOutcome::Rename(id) => EditOutcomeView::Rename(id@),
            EditOutcome::Abort => EditOutcomeView::Abort,
        }
    }
}

/// Whether an edited record needs another identifier: its slug is no longer
/// the identifier that it has.
pub open spec fn slug_changed(old_id: Seq<char>, r: ReferenceView) -> bool {
    slug(r.authors, r.year, r.title) != old_id
}

/// What an edit does to the identifier of a record: nothing where the slug
/// of the edited record is still its identifier; otherwise the record is
/// renamed to its slug, unless the answer to the question whether to go on
/// denies it.
pub open spec fn edit_decided(old_id: Seq<char>, r: ReferenceView, answer: Seq<char>) -> EditOutcomeView {
    if !slug_changed(old_id, r) {
        EditOutcomeView::Keep
    } else if yes_or_empty(answer) {
        EditOutcomeView::Rename(slug(r.authors, r.year, r.title))
    } else {
        EditOutcomeView::Abort
    }
}

/// Whether an edited record needs another identifier, so that the user is
/// asked whether to go on.
pub fn needs_rename(old_id: &str, r: &Reference) -> (changed: bool)
    ensures
        changed == slug_changed(old_id@, r@),
{
    let id = slug_of(r);
    !same_text(id.as_str(), old_id)
}

/// What an edit does to the identifier of a record. The slug is made as it
/// is for a new record, so that an edited record and a new one with the same
/// first author, year and title have the same identifier.
pub fn edit_outcome(old_id: &str, r: &Reference, answer: &str) -> (o: EditOutcome)
    ensures
        o@ == edit_decided(old_id@, r@, answer@),
{
    let id = slug_of(r);
    if same_text(id.as_str(), old_id) {
        EditOutcome::Keep
    } else if confirmed_by_default(answer) {
        EditOutcome::Rename(id)
    } else {
        EditOutcome::Abort
    }
}

/// Links a file to a record unless it is linked already, and tells whether
/// it was added.
pub fn attach(r: &mut Reference, path: &str) -> (added: bool)
    ensures
        added == !old(r)@.attachments.contains(path@),
        final(r)@ == (ReferenceView {
            attachments: if added {
                old(r)@.attachments.push(path@)
            } else {
                old(r)@.attachments
            },
            ..old(r)@
        }),
{
    if holds(&r.attachments, path) {
        false
    } else {
        let ghost before = texts(r.attachments@);
        r.attachments.push(path.to_owned());
        assert(texts(r.attachments@) =~= before.push(path@));
        true
    }
}

/// What `detach` did.
#[derive(Clone, Debug, PartialEq, Eq)]
pub enum Detached {
    /// The record has no attachment.
    Nothing,
    /// All attachments were removed, this many.
    All(usize),
    /// One attachment was removed, this one.
    One(String),
    /// The number given names no attachment; the record has this many.
    BadIndex(usize),
}

/// The position of the attachment to remove, counted from zero: the first
/// where no number is given, and the one that the number names, counted
/// from one, where it names one.
pub open spec fn detach_position(index: Option<usize>, len: nat) -> Option<nat> {
    match index {
        None => Some(0),
        Some(i) => if 1 <= i <= len {
            Some((i - 1) as nat)
        } else {
            None
        },
    }
}

/// Removes attachments from a record: all of them, or the one that `index`
/// names, counted from one, or the first where no number is given.
pub fn detach(r: &mut Reference, index: Option<usize>, all: bool) -> (done: Detached)
    ensures
        old(r)@.attachments.len() == 0 ==> done == Detached::Nothing && final(r)@ == old(r)@,
        old(r)@.attachments.len() > 0 && all ==> done == Detached::All(old(r).attachments.len())
            && final(r)@ == (ReferenceView { attachments: Seq::empty(), ..old(r)@ }),
        old(r)@.attachments.len() > 0 && !all ==> match detach_position(
            index,
            old(r)@.attachments.len(),
        ) {
            Some(p) => done matches Detached::One(path) && path@ == old(r)@.attachments[p as int]
                && final(r)@ == (ReferenceView {
                attachments: old(r)@.attachments.remove(p as int),
                ..old(r)@
            }),
            None => done == Detached::BadIndex(old(r).attachments.len()) && final(r)@ == old(r)@,
        },
{
    let n = r.attachments.len();
    if n == 0 {
        return Detached::Nothing;
    }
    if all {
        r.attachments = Vec::new();
        assert(texts(r.attachments@) =~= Seq::empty());
        return Detached::All(n);
    }
    let position: usize = match index {
        None => 0,
        Some(i) => {
            if i >= 1 && i <= n {
                i - 1
            } else {
                return Detached::BadIndex(n);
            }
        },
    };
    let ghost before = texts(r.attachments@);
    let path = r.attachments.remove(position);
    assert(texts(r.attachments@) =~= before.remove(position as int));
    Detached::One(path)
}

/// What the `lib` command is asked to do.
#[derive(Clone, Debug, PartialEq, Eq)]
pub enum LibraryAction {
    /// Give the active library this name.
    Rename(String),
    /// Delete this library.
    Delete(String),
    /// Make this library the active one, creating it where it is missing.
    Switch(String),
    /// Show which library is active.
    Show,
    /// Both deleting and renaming were asked for.
    Invalid,
}

/// What a `LibraryAction` value holds.
pub enum LibraryActionView {
    Rename(Seq<char>),
    Delete(Seq<char>),
    Switch(Seq<char>),
    Show,
    Invalid,
}

impl View for LibraryAction {
    type V = LibraryActionView;

    open spec fn view(&self) -> LibraryActionView {
        match self {
            LibraryAction::Rename(s) => LibraryActionView::Rename(s@),
            LibraryAction::Delete(s) => LibraryActionView::Delete(s@),
            LibraryAction::Switch(s) => LibraryActionView::Switch(s@),
            LibraryAction::Show => LibraryActionView::Show,
            LibraryAction::Invalid => LibraryActionView::Invalid,
        }
    }
}

/// What the `lib` command is asked to do: without a name it shows the
/// active library; with a name it renames, deletes or switches, as the flags
/// say; both flags together are refused.
pub fn library_action(library_id: Option<String>, delete: bool, rename: bool) -> (action:
    LibraryAction)
    ensures
        action@ == match opt_text(library_id) {
            None => LibraryActionView::Show,
            Some(name) => if delete && rename {
                LibraryActionView::Invalid
            } else if rename {
                LibraryActionView::Rename(name)
            } else if delete {
                LibraryActionView::Delete(name)
            } else {
                LibraryActionView::Switch(name)
            },
        },
{
    match library_id {
        None => LibraryAction::Show,
        Some(name) => {
            if delete && rename {
                LibraryAction::Invalid
            } else if rename {
                LibraryAction::Rename(name)
            } else if delete {
                LibraryAction::Delete(name)
            } else {
                LibraryAction::Switch(name)
            }
        },
    }
}

/// Whether the text of a project file mentions a record.
pub fn mentions(contents: &str, ref_id: &str) -> (r: bool)
    ensures
        r == contains_text(contents@, ref_id@),
{
    has_text(&to_chars(contents), &to_chars(ref_id))
}

/// Whether a project file other than that of the current project mentions a
/// record: its text holds the identifier of the record, and its path does
/// not hold the identifier of the current project.
pub fn used_elsewhere(contents: &str, path: &str, ref_id: &str, current_project: &str) -> (r: bool)
    ensures
        r == (contains_text(contents@, ref_id@) && !contains_text(path@, current_project@)),
{
    mentions(contents, ref_id) && !mentions(path, current_project)
}

/// The project that a command works on.
#[derive(Clone, Debug, PartialEq, Eq)]
pub enum ProjectChoice {
    /// This project, by its readable identifier.
    Chosen(String),
    /// A selector was given and names no project.
    Unresolved(ResolveProjectError),
    /// No selector was given and no project is active.
    NoActive,
}

/// The project that a command works on: the one that the selector resolves
/// to, where one is given, and the active project otherwise.
pub fn choose_project(selector: Option<&str>, all: &Vec<Project>, active: Option<&str>) -> (choice:
    ProjectChoice)
    ensures
        match selector {
            Some(s) => match choice {
                ProjectChoice::Chosen(id) => resolution(s@, project_names(all@))
                    == Resolution::Found(id@),
                ProjectChoice::Unresolved(e) => project_verdict(Err(e)) == resolution(
                    s@,
                    project_names(all@),
                ),
                ProjectChoice::NoActive => false,
            },
            None => match active {
                Some(a) => choice matches ProjectChoice::Chosen(id) && id@ == a@,
                None => choice == ProjectChoice::NoActive,
            },
        },
{
    match selector {
        Some(s) => match resolve_project(s, all) {
            Ok(id) => ProjectChoice::Chosen(id),
            Err(e) => ProjectChoice::Unresolved(e),
        },
        None => match active {
            Some(a) => ProjectChoice::Chosen(a.to_owned()),
            None => ProjectChoice::NoActive,
        },
    }
}

/// The projects whose records are printed: all that were found, in the
/// order of their identifiers, where all are asked for; the active project
/// where none is named; and otherwise those named, in the order given. None
/// where there is no such project.
pub fn printed_projects(all: bool, found: Vec<String>, named: Vec<String>, active: Option<String>) -> (r:
    Option<Vec<String>>)
    ensures
        all ==> match r {
            Some(ids) => found.len() > 0 && ids@ == values(ordered(id_keyed(found@))),
            None => found.len() == 0,
        },
        !all && named.len() > 0 ==> r == Some(named),
        !all && named.len() == 0 ==> match r {
            Some(ids) => active matches Some(a) && ids@ == seq![a],
            None => active is None,
        },
{
    if all {
        if found.len() == 0 {
            None
        } else {
            let mut ids = found;
            sort_ids(&mut ids);
            proof {
                lemma_ordered_in_order(id_keyed(found@));
            }
            Some(ids)
        }
    } else if named.len() > 0 {
        Some(named)
    } else {
        match active {
            Some(a) => {
                let mut ids: Vec<String> = Vec::new();
                ids.push(a);
                Some(ids)
            },
            None => None,
        }
    }
}

} // verus!
