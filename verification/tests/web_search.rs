use elaine::reference::Reference;
use elaine::search::engine::{search_reference, SearchResult};
use elaine::search::strategies::{doi, google_scholar, url, web};

fn study() -> Reference {
    let mut r = Reference::new_minimal("k", "A Study");
    r.authors = vec!["Jane Doe".to_string(), "John Roe".to_string()];
    r.year = Some(2020);
    r
}

#[test]
fn doi_is_the_only_place() {
    let mut r = study();
    r.identifiers.doi = Some("10.1000/xyz".to_string());
    r.identifiers.url = Some("http://example.org".to_string());
    assert_eq!(
        search_reference(&r),
        vec![SearchResult {
            label: "DOI".to_string(),
            url: "https://doi.org/10.1000/xyz".to_string(),
            confidence: 100,
        }]
    );
}

#[test]
fn url_comes_before_scholar() {
    let mut r = study();
    r.identifiers.url = Some("http://example.org/p".to_string());
    let out = search_reference(&r);
    assert_eq!(out.len(), 2);
    assert_eq!(
        out[0],
        SearchResult { label: "Provided URL".to_string(), url: "http://example.org/p".to_string(), confidence: 90 }
    );
    assert_eq!(out[1].label, "Google Scholar");
}

#[test]
fn scholar_query_is_percent_encoded() {
    let out = search_reference(&study());
    assert_eq!(
        out,
        vec![SearchResult {
            label: "Google Scholar".to_string(),
            url: "https://scholar.google.com/scholar?q=%22A%20Study%22%20Jane%20Doe%202020".to_string(),
            confidence: 85,
        }]
    );
    assert_eq!(google_scholar::query_of(&study()), "\"A Study\" Jane Doe 2020");
}

#[test]
fn scholar_query_without_author_and_year() {
    let r = Reference::new_minimal("k", "Caf\u{e9}_1-2.3~4");
    let out = google_scholar::search(&r);
    assert_eq!(out.len(), 1);
    assert_eq!(out[0].url, "https://scholar.google.com/scholar?q=%22Caf%C3%A9_1-2.3~4%22");
}

#[test]
fn web_query_has_both_in_quotes() {
    let out = web::search(&study());
    assert_eq!(
        out,
        vec![SearchResult {
            label: "Web search".to_string(),
            url: "https://duckduckgo.com/?q=%22A%20Study%22%20%22Jane%20Doe%22%202020".to_string(),
            confidence: 20,
        }]
    );
    let bare = Reference::new_minimal("k", "T");
    assert_eq!(web::query_of(&bare), "\"T\" \"\" 0");
}

#[test]
fn strategies_without_identifiers_give_nothing() {
    let r = study();
    assert_eq!(doi::search(&r), None);
    assert_eq!(url::search(&r), None);
}
