//! Looking a record up with a plain web search.

use vstd::prelude::*;
use crate::number::{decimal, decimal_digits};
use crate::reference::{Reference, ReferenceView};
use crate::search::encoding::{url_encode, url_encoded};
use crate::search::engine::{results, SearchResult, SearchResultView};
use crate::text::{append, append_text, from_chars, to_chars};

verus! {

/// The query: the title and the first author, each in double quotes, and
/// the year, with a space between each two. A record without authors gives
/// an empty pair of quotes, and one without a year gives `0`.
pub open spec fn web_query(r: ReferenceView) -> Seq<char> {
    "\""@ + r.title + "\" \""@ + if r.authors.len() > 0 {
        r.authors[0]
    } else {
        Seq::empty()
    } + "\" "@ + decimal_digits(
        match r.year {
            Some(y) => y as nat,
            None => 0,
        },
    )
}

/// The web search for a record.
pub open spec fn web_places(r: ReferenceView) -> Seq<SearchResultView> {
    seq![
        SearchResultView {
            label: "Web search"@,
            url: "https://duckduckgo.com/?q="@ + url_encoded(web_query(r)),
            confidence: 20,
        },
    ]
}

/// The query that a record is looked up with.
pub fn query_of(r: &Reference) -> (q: String)
    ensures
        q@ == web_query(r@),
{
    let mut q = to_chars("\"");
    append(&mut q, &to_chars(r.title.as_str()));
    append_text(&mut q, "\" \"");
    if r.authors.len() > 0 {
        append(&mut q, &to_chars(r.authors[0].as_str()));
    }
    append_text(&mut q, "\" ");
    let y: u16 = match r.year {
        Some(y) => y,
        None => 0,
    };
    append(&mut q, &decimal(y));
    assert(q@ =~= web_query(r@));
    from_chars(&q)
}

/// The web search for a record.
pub fn search(r: &Reference) -> (out: Vec<SearchResult>)
    ensures
        results(out@) == web_places(r@),
{
    let q = query_of(r);
    let mut url = to_chars("https://duckduckgo.com/?q=");
    append(&mut url, &to_chars(url_encode(q.as_str()).as_str()));
    let mut out: Vec<SearchResult> = Vec::new();
    out.push(SearchResult { label: "Web search".to_owned(), url: from_chars(&url), confidence: 20 });
    assert(results(out@) =~= web_places(r@));
    out
}

} // verus!
