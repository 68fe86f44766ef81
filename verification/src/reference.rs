//! Bibliographic records.

use vstd::prelude::*;
use crate::text::{opt_text, texts};

verus! {

/// The kind of publication a record describes.
#[derive(Clone, Copy, Debug, PartialEq, Eq, Structural)]
pub enum RefKind {
    Article,
    InProceedings,
    InCollection,
    Book,
    InBook,
    Misc,
}

/// External identifiers of a publication.
#[derive(Clone, Debug, PartialEq, Eq)]
pub struct Identifiers {
    pub doi: Option<String>,
    pub arxiv: Option<String>,
    pub isbn: Option<String>,
    pub url: Option<String>,
}

/// Where a publication appeared.
#[derive(Clone, Debug, PartialEq, Eq)]
pub struct Venue {
    pub journal: Option<String>,
    pub booktitle: Option<String>,
    pub publisher: Option<String>,
    pub series: Option<String>,
    pub volume: Option<String>,
    pub issue: Option<String>,
    pub pages: Option<String>,
    pub address: Option<String>,
}

/// One bibliographic record.
///
/// `id` is the readable identifier: the key of its entry for a record read
/// from BibTeX, and the slug of first author, year and title for one that is
/// made or edited by hand. `sid` is the opaque identifier that never changes
/// once assigned, and is empty until the store assigns one.
#[derive(Clone, Debug, PartialEq, Eq)]
pub struct Reference {
    pub id: String,
    pub sid: String,
    pub kind: RefKind,
    pub title: String,
    pub authors: Vec<String>,
    pub editors: Vec<String>,
    pub year: Option<u16>,
    pub identifiers: Identifiers,
    pub venue: Option<Venue>,
    pub tags: Vec<String>,
    pub notes: Option<String>,
    pub attachments: Vec<String>,
}

/// What an `Identifiers` value holds.
pub struct IdentifiersView {
    pub doi: Option<Seq<char>>,
    pub arxiv: Option<Seq<char>>,
    pub isbn: Option<Seq<char>>,
    pub url: Option<Seq<char>>,
}

/// What a `Venue` value holds.
pub struct VenueView {
    pub journal: Option<Seq<char>>,
    pub booktitle: Option<Seq<char>>,
    pub publisher: Option<Seq<char>>,
    pub series: Option<Seq<char>>,
    pub volume: Option<Seq<char>>,
    pub issue: Option<Seq<char>>,
    pub pages: Option<Seq<char>>,
    pub address: Option<Seq<char>>,
}

/// What a `Reference` value holds.
pub struct ReferenceView {
    pub id: Seq<char>,
    pub sid: Seq<char>,
    pub kind: RefKind,
    pub title: Seq<char>,
    pub authors: Seq<Seq<char>>,
    pub editors: Seq<Seq<char>>,
    pub year: Option<u16>,
    pub identifiers: IdentifiersView,
    pub venue: Option<VenueView>,
    pub tags: Seq<Seq<char>>,
    pub notes: Option<Seq<char>>,
    pub attachments: Seq<Seq<char>>,
}

impl View for Identifiers {
    type V = IdentifiersView;

    open spec fn view(&self) -> IdentifiersView {
        IdentifiersView {
            doi: opt_text(self.doi),
            arxiv: opt_text(self.arxiv),
            isbn: opt_text(self.isbn),
            url: opt_text(self.url),
        }
    }
}

impl View for Venue {
    type V = VenueView;

    open spec fn view(&self) -> VenueView {
        VenueView {
            journal: opt_text(self.journal),
            booktitle: opt_text(self.booktitle),
            publisher: opt_text(self.publisher),
            series: opt_text(self.series),
            volume: opt_text(self.volume),
            issue: opt_text(self.issue),
            pages: opt_text(self.pages),
            address: opt_text(self.address),
        }
    }
}

impl View for Reference {
    type V = ReferenceView;

    open spec fn view(&self) -> ReferenceView {
        ReferenceView {
            id: self.id@,
            sid: self.sid@,
            kind: self.kind,
            title: self.title@,
            authors: texts(self.authors@),
            editors: texts(self.editors@),
            year: self.year,
            identifiers: self.identifiers@,
            venue: match self.venue {
                Some(v) => Some(v@),
                None => None,
            },
            tags: texts(self.tags@),
            notes: opt_text(self.notes),
            attachments: texts(self.attachments@),
        }
    }
}

/// The views of a sequence of records.
pub open spec fn records(v: Seq<Reference>) -> Seq<ReferenceView> {
    Seq::new(v.len(), |i: int| v[i]@)
}

/// The view of an optional record.
pub open spec fn opt_record(o: Option<Reference>) -> Option<ReferenceView> {
    match o {
        Some(r) => Some(r@),
        None => None,
    }
}

impl IdentifiersView {
    /// No identifier at all.
    pub open spec fn none() -> IdentifiersView {
        IdentifiersView { doi: None, arxiv: None, isbn: None, url: None }
    }
}

impl VenueView {
    /// A venue of which nothing is known.
    pub open spec fn none() -> VenueView {
        VenueView {
            journal: None,
            booktitle: None,
            publisher: None,
            series: None,
            volume: None,
            issue: None,
            pages: None,
            address: None,
        }
    }
}

impl ReferenceView {
    /// The record that holds an identifier and a title and nothing else.
    pub open spec fn minimal(id: Seq<char>, title: Seq<char>) -> ReferenceView {
        ReferenceView {
            id,
            sid: Seq::empty(),
            kind: RefKind::Misc,
            title,
            authors: Seq::empty(),
            editors: Seq::empty(),
            year: None,
            identifiers: IdentifiersView::none(),
            venue: None,
            tags: Seq::empty(),
            notes: None,
            attachments: Seq::empty(),
        }
    }
}

impl Default for Identifiers {
    fn default() -> (r: Identifiers)
        ensures
            r@ == IdentifiersView::none(),
    {
        Identifiers { doi: None, arxiv: None, isbn: None, url: None }
    }
}

impl Venue {
    /// A venue of which nothing is known.
    pub fn empty() -> (r: Venue)
        ensures
            r@ == VenueView::none(),
    {
        Venue {
            journal: None,
            booktitle: None,
            publisher: None,
            series: None,
            volume: None,
            issue: None,
            pages: None,
            address: None,
        }
    }
}

impl Reference {
    /// A record of kind `Misc` with the given identifier and title, no
    /// stable identifier yet, and every other field empty.
    pub fn new_minimal(id: &str, title: &str) -> (r: Reference)
        ensures
            r@ == ReferenceView::minimal(id@, title@),
    {
        let r = Reference {
            id: id.to_owned(),
            sid: String::new(),
            kind: RefKind::Misc,
            title: title.to_owned(),
            authors: Vec::new(),
            editors: Vec::new(),
            year: None,
            identifiers: Identifiers::default(),
            venue: None,
            tags: Vec::new(),
            notes: None,
            attachments: Vec::new(),
        };
        assert(r@.authors =~= Seq::empty());
        assert(r@.editors =~= Seq::empty());
        assert(r@.tags =~= Seq::empty());
        assert(r@.attachments =~= Seq::empty());
        r
    }
}

} // verus!
