//! Looking a record up on Google Scholar.

use vstd::prelude::*;
use crate::number::{decimal, decimal_digits};
use crate::reference::{Reference, ReferenceView};
use crate::search::encoding::{url_encode, url_encoded};
use crate::search::engine::{results, SearchResult, SearchResultView};
use crate::text::{append, append_text, from_chars, join, joined, rows, to_chars};

verus! {

/// The parts of the query: the title in double quotes, the first author
/// where there is one, and the year where there is one.
pub open spec fn scholar_parts(r: ReferenceView) -> Seq<Seq<char>> {
    seq!["\""@ + r.title + "\""@] + if r.authors.len() > 0 {
        seq![r.authors[0]]
    } else {
        Seq::empty()
    } + match r.year {
        Some(y) => seq![decimal_digits(y as nat)],
        None => Seq::empty(),
    }
}

/// The query: the parts with a space between each two.
pub open spec fn scholar_query(r: ReferenceView) -> Seq<char> {
    joined(scholar_parts(r), " "@)
}

/// The Google Scholar search for a record.
pub open spec fn scholar_places(r: ReferenceView) -> Seq<SearchResultView> {
    seq![
        SearchResultView {
            label: "Google Scholar"@,
            url: "https://scholar.google.com/scholar?q="@ + url_encoded(scholar_query(r)),
            confidence: 85,
        },
    ]
}

/// The query that a record is looked up with.
pub fn query_of(r: &Reference) -> (q: String)
    ensures
        q@ == scholar_query(r@),
{
    let mut parts: Vec<Vec<char>> = Vec::new();
    let mut title = to_chars("\"");
    append(&mut title, &to_chars(r.title.as_str()));
    append_text(&mut title, "\"");
    parts.push(title);
    if r.authors.len() > 0 {
        parts.push(to_chars(r.authors[0].as_str()));
    }
    match r.year {
        Some(y) => {
            parts.push(decimal(y));
        },
        None => {},
    }
    assert(rows(parts@) =~= scholar_parts(r@));
    from_chars(&join(&parts, &to_chars(" ")))
}

/// The Google Scholar search for a record.
pub fn search(r: &Reference) -> (out: Vec<SearchResult>)
    ensures
        results(out@) == scholar_places(r@),
{
    let q = query_of(r);
    let mut url = to_chars("https://scholar.google.com/scholar?q=");
    append(&mut url, &to_chars(url_encode(q.as_str()).as_str()));
    let mut out: Vec<SearchResult> = Vec::new();
    out.push(
        SearchResult { label: "Google Scholar".to_owned(), url: from_chars(&url), confidence: 85 },
    );
    assert(results(out@) =~= scholar_places(r@));
    out
}

} // verus!
