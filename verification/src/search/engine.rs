//! Choosing among the ways of looking for a record.

use vstd::prelude::*;
use crate::reference::{Reference, ReferenceView};
use crate::search::strategies::{doi, google_scholar, url, web};

verus! {

/// One place to look for a record.
#[derive(Clone, Debug, PartialEq, Eq)]
pub struct SearchResult {
    /// What kind of place this is.
    pub label: String,
    /// Its address.
    pub url: String,
    /// How likely the record is found there, in hundredths.
    pub confidence: u8,
}

/// What a `SearchResult` value holds.
pub struct SearchResultView {
    pub label: Seq<char>,
    pub url: Seq<char>,
    pub confidence: u8,
}

impl View for SearchResult {
    type V = SearchResultView;

    open spec fn view(&self) -> SearchResultView {
        SearchResultView { label: self.label@, url: self.url@, confidence: self.confidence }
    }
}

/// The views of a sequence of results.
pub open spec fn results(v: Seq<SearchResult>) -> Seq<SearchResultView> {
    Seq::new(v.len(), |i: int| v[i]@)
}

/// The view of an optional result.
pub open spec fn opt_result(o: Option<SearchResult>) -> Option<SearchResultView> {
    match o {
        Some(r) => Some(r@),
        None => None,
    }
}

/// The places to look for a record, best first. A DOI is the only place
/// where the record has one. Otherwise the places are the URL of the record,
/// where it has one, and what Google Scholar gives; a plain web search is
/// added where there is nothing else.
pub open spec fn places(r: ReferenceView) -> Seq<SearchResultView> {
    match doi::doi_place(r) {
        Some(d) => seq![d],
        None => {
            let first = match url::url_place(r) {
                Some(u) => seq![u],
                None => Seq::empty(),
            } + google_scholar::scholar_places(r);
            if first.len() == 0 {
                web::web_places(r)
            } else {
                first
            }
        },
    }
}

/// The places to look for a record, best first.
pub fn search_reference(r: &Reference) -> (out: Vec<SearchResult>)
    ensures
        results(out@) == places(r@),
{
    let mut out: Vec<SearchResult> = Vec::new();
    match doi::search(r) {
        Some(d) => {
            out.push(d);
            assert(results(out@) =~= seq![d@]);
            return out;
        },
        None => {},
    }
    match url::search(r) {
        Some(u) => {
            out.push(u);
            assert(results(out@) =~= seq![u@]);
        },
        None => {
            assert(results(out@) =~= Seq::empty());
        },
    }
    let ghost head = results(out@);
    let mut found = google_scholar::search(r);
    let ghost tail = results(found@);
    out.append(&mut found);
    assert(results(out@) =~= head + tail);
    if out.len() == 0 {
        let mut last = web::search(r);
        let ghost rest = results(last@);
        out.append(&mut last);
        assert(results(out@) =~= rest);
    }
    out
}

} // verus!
