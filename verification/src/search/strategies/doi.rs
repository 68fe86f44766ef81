//! Looking a record up by its DOI.

use vstd::prelude::*;
use crate::reference::{Reference, ReferenceView};
use crate::search::engine::{opt_result, SearchResult, SearchResultView};
use crate::text::{append, from_chars, to_chars};

verus! {

/// The resolver page of the DOI of a record, where it has one.
pub open spec fn doi_place(r: ReferenceView) -> Option<SearchResultView> {
    match r.identifiers.doi {
        Some(doi) => Some(
            SearchResultView { label: "DOI"@, url: "https://doi.org/"@ + doi, confidence: 100 },
        ),
        None => None,
    }
}

/// The resolver page of the DOI of a record, where it has one.
pub fn search(r: &Reference) -> (out: Option<SearchResult>)
    ensures
        opt_result(out) == doi_place(r@),
{
    match &r.identifiers.doi {
        Some(doi) => {
            let mut url = to_chars("https://doi.org/");
            append(&mut url, &to_chars(doi.as_str()));
            Some(SearchResult { label: "DOI".to_owned(), url: from_chars(&url), confidence: 100 })
        },
        None => None,
    }
}

} // verus!
