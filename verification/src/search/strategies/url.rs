//! Looking a record up at the URL that it carries.

use vstd::prelude::*;
use crate::reference::{Reference, ReferenceView};
use crate::search::engine::{opt_result, SearchResult, SearchResultView};

verus! {

/// The URL of a record, where it has one.
pub open spec fn url_place(r: ReferenceView) -> Option<SearchResultView> {
    match r.identifiers.url {
        Some(url) => Some(SearchResultView { label: "Provided URL"@, url, confidence: 90 }),
        None => None,
    }
}

/// The URL of a record, where it has one.
pub fn search(r: &Reference) -> (out: Option<SearchResult>)
    ensures
        opt_result(out) == url_place(r@),
{
    match &r.identifiers.url {
        Some(url) => Some(
            SearchResult { label: "Provided URL".to_owned(), url: url.clone(), confidence: 90 },
        ),
        None => None,
    }
}

} // verus!
