use elaine::bibtex::parse_bibtex;
use elaine::purge::{is_purged_file, purge_bib, purged_file_name};
use elaine::citations::CitationSet;
use elaine::reference::{Identifiers, RefKind, Reference, Venue};
use elaine::render::{output_file_name, render_bibtex, render_file};

fn full() -> Reference {
    Reference {
        id: "doe2020astudy".to_string(),
        sid: "sid".to_string(),
        kind: RefKind::InProceedings,
        title: "A Study".to_string(),
        authors: vec!["Jane Doe".to_string(), "John Roe".to_string()],
        editors: vec!["Ed One".to_string()],
        year: Some(2020),
        identifiers: Identifiers {
            doi: Some("10.1/x".to_string()),
            arxiv: Some("1234.5678".to_string()),
            isbn: Some("978-3".to_string()),
            url: Some("http://u".to_string()),
        },
        venue: Some(Venue {
            journal: Some("J".to_string()),
            booktitle: Some("B".to_string()),
            publisher: Some("P".to_string()),
            series: Some("S".to_string()),
            volume: Some("V".to_string()),
            issue: Some("N".to_string()),
            pages: Some("1--2".to_string()),
            address: Some("A".to_string()),
        }),
        tags: vec!["t".to_string()],
        notes: Some("n".to_string()),
        attachments: vec![],
    }
}

#[test]
fn render_full_record() {
    let expected = "@INPROCEEDINGS{doe2020astudy,\n\
\x20 title    = {A Study},\n\
\x20 author   = {Jane Doe and John Roe},\n\
\x20 editor   = {Ed One},\n\
\x20 year     = {2020},\n\
\x20 journal  = {J},\n\
\x20 booktitle= {B},\n\
\x20 publisher= {P},\n\
\x20 series   = {S},\n\
\x20 volume   = {V},\n\
\x20 number   = {N},\n\
\x20 pages    = {1--2},\n\
\x20 address  = {A},\n\
\x20 doi      = {10.1/x},\n\
\x20 url      = {http://u},\n\
\x20 isbn     = {978-3},\n\
}\n";
    assert_eq!(render_bibtex(&full()), expected);
}

#[test]
fn render_minimal_record() {
    let r = Reference::new_minimal("k", "Only a Title");
    assert_eq!(render_bibtex(&r), "@MISC{k,\n  title    = {Only a Title},\n}\n");
}

#[test]
fn render_kind_names() {
    let mut r = Reference::new_minimal("k", "T");
    for (kind, name) in [
        (RefKind::Article, "ARTICLE"),
        (RefKind::InProceedings, "INPROCEEDINGS"),
        (RefKind::InCollection, "INCOLLECTION"),
        (RefKind::InBook, "INBOOK"),
        (RefKind::Book, "BOOK"),
        (RefKind::Misc, "MISC"),
    ] {
        r.kind = kind;
        assert_eq!(render_bibtex(&r), format!("@{}{{k,\n  title    = {{T}},\n}}\n", name));
    }
}

#[test]
fn render_is_stable() {
    let a = full();
    let b = full();
    assert_eq!(render_bibtex(&a), render_bibtex(&b));
    assert_eq!(render_bibtex(&a), render_bibtex(&a));
}

#[test]
fn render_empty_venue_adds_nothing() {
    let mut r = Reference::new_minimal("k", "T");
    r.venue = Some(Venue::empty());
    r.year = Some(5);
    assert_eq!(render_bibtex(&r), "@MISC{k,\n  title    = {T},\n  year     = {5},\n}\n");
}

#[test]
fn rendered_text_is_read_back() {
    let out = parse_bibtex(&render_bibtex(&full()));
    assert!(out.rejected.is_empty());
    assert_eq!(out.records.len(), 1);
    let r = &out.records[0];
    let want = full();
    assert_eq!(r.kind, want.kind);
    assert_eq!(r.title, want.title);
    assert_eq!(r.authors, want.authors);
    assert_eq!(r.editors, want.editors);
    assert_eq!(r.year, want.year);
    assert_eq!(r.venue, want.venue);
    assert_eq!(r.identifiers.doi, want.identifiers.doi);
    assert_eq!(r.identifiers.url, want.identifiers.url);
    assert_eq!(r.identifiers.isbn, want.identifiers.isbn);
    assert_eq!(r.id, want.id);
}

#[test]
fn rendered_id_is_read_back() {
    let mut r = Reference::new_minimal("k", "T");
    r.authors = vec!["Jane Doe".to_string()];
    r.year = Some(2020);
    let out = parse_bibtex(&render_bibtex(&r));
    assert_eq!(out.records.len(), 1);
    assert_eq!(out.records[0].id, "k");
    assert_eq!(out.records[0].kind, r.kind);
    assert_eq!(out.records[0].title, r.title);
    assert_eq!(out.records[0].authors, r.authors);
    assert_eq!(out.records[0].year, r.year);
}

#[test]
fn file_holds_blocks_with_empty_lines() {
    let a = Reference::new_minimal("a", "A");
    let b = Reference::new_minimal("b", "B");
    assert_eq!(
        render_file(&vec![a, b]),
        "@MISC{a,\n  title    = {A},\n}\n\n@MISC{b,\n  title    = {B},\n}\n\n"
    );
    assert_eq!(render_file(&Vec::new()), "");
}

#[test]
fn output_file_is_named_after_projects() {
    let ids = vec!["thesis".to_string(), "paper".to_string()];
    assert_eq!(output_file_name(false, &ids), "thesis+paper_references.bib");
    assert_eq!(output_file_name(true, &ids), "global_references.bib");
    assert_eq!(output_file_name(false, &vec!["one".to_string()]), "one_references.bib");
    assert_eq!(output_file_name(false, &Vec::new()), "_references.bib");
}

#[test]
fn purge_keeps_cited_entries() {
    let content = "% header\n@article{a,\n title={A}\n}\n\n@book{b\\_x, title={B}}\n@misc{c, title={C}}\n";
    let mut cited = CitationSet::new();
    cited.insert("a".to_string());
    cited.insert("b_x".to_string());
    let out = purge_bib(content, &cited);
    assert_eq!(out.kept, 2);
    assert_eq!(out.removed, 1);
    assert_eq!(out.content, "@article{a,\n title={A}\n}\n\n@book{b\\_x, title={B}}\n\n");
}

#[test]
fn purge_block_ending_in_line_feed() {
    let content = "@article{a, title={Broken\n@book{b, title={B}}";
    let mut cited = CitationSet::new();
    cited.insert("a".to_string());
    let out = purge_bib(content, &cited);
    assert_eq!(out.kept, 1);
    assert_eq!(out.removed, 1);
    assert_eq!(out.content, "@article{a, title={Broken\n\n");
}

#[test]
fn purge_with_nothing_cited() {
    let out = purge_bib("@article{a, title={A}}", &CitationSet::new());
    assert_eq!((out.kept, out.removed), (0, 1));
    assert_eq!(out.content, "");
    let none = purge_bib("no entries here", &CitationSet::new());
    assert_eq!((none.kept, none.removed), (0, 0));
}

#[test]
fn purged_files_are_named_and_known() {
    assert_eq!(purged_file_name("refs"), "refs_purged.bib");
    assert!(is_purged_file("refs_purged.bib"));
    assert!(is_purged_file("_purged.bib"));
    assert!(!is_purged_file("refs.bib"));
    assert!(!is_purged_file("purged.bib"));
    assert!(!is_purged_file(""));
}
