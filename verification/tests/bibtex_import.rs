use elaine::bibtex::{map_entry, normalize_closing_braces, parse_bibtex, split_names};
use elaine::entries::{parse_bib_entries, split_entries};
use elaine::fields::{extract_fields, Field};
use elaine::id::{make_ref_id, SURNAME_LEN, TITLE_LEN};
use elaine::reference::RefKind;

#[test]
fn end_to_end_article() {
    let input = "@article{Doe20,\n  title = {A Study},\n  author = {Jane Doe},\n  year = {2020}\n}";
    let out = parse_bibtex(input);
    assert!(out.rejected.is_empty());
    assert_eq!(out.records.len(), 1);
    let r = &out.records[0];
    assert_eq!(r.title, "A Study");
    assert_eq!(r.authors, vec!["Jane Doe".to_string()]);
    assert_eq!(r.year, Some(2020));
    assert_eq!(r.kind, RefKind::Article);
    let part = |text: &str, limit: usize| -> String {
        text.to_lowercase().chars().filter(|c| c.is_alphanumeric()).take(limit).collect()
    };
    let expected = format!("{}{:04}{}", part("Doe", SURNAME_LEN), 2020, part("A Study", TITLE_LEN));
    assert_eq!(make_ref_id(&r.authors, r.year, &r.title), expected);
    assert_eq!(r.id, "Doe20");
    assert_eq!(r.sid, "");
}

#[test]
fn missing_title_is_rejected_with_key() {
    let input = "@book{smith/99:x,\n  author = {Ann Smith},\n  year = {1999}\n}\n";
    let out = parse_bibtex(input);
    assert_eq!(out.records.len(), 0);
    assert_eq!(out.rejected, vec!["smith_99_x".to_string()]);
}

#[test]
fn splitter_yields_kind_key_body_block() {
    let text = "junk @Article{ k1 , title = {A {nested} B}, x = 1 }\n% c\n@misc{k2,note=\"n\"}";
    let es = split_entries(text);
    assert_eq!(es.len(), 2);
    assert_eq!(es[0].kind_raw, "Article");
    assert_eq!(es[0].key_raw, " k1 ");
    assert_eq!(es[0].body, " title = {A {nested} B}, x = 1 ");
    assert_eq!(es[0].block, "@Article{ k1 , title = {A {nested} B}, x = 1 }");
    assert_eq!(es[1].kind_raw, "misc");
    assert_eq!(es[1].key_raw, "k2");
    assert_eq!(es[1].body, "note=\"n\"");
}

#[test]
fn splitter_resyncs_at_next_entry() {
    let text = "@article{a, title = {Broken\n@book{b, title = {Fine}}";
    let es = split_entries(text);
    assert_eq!(es.len(), 2);
    assert_eq!(es[0].key_raw, "a");
    assert_eq!(es[0].body, " title = {Broken\n");
    assert_eq!(es[0].block, "@article{a, title = {Broken\n");
    assert_eq!(es[1].key_raw, "b");
    assert_eq!(es[1].body, " title = {Fine}");
}

#[test]
fn splitter_drops_unterminated_entry() {
    assert_eq!(split_entries("@article{a, title = {Never closed").len(), 0);
    assert_eq!(split_entries("@article{a").len(), 0);
    assert_eq!(split_entries("@article").len(), 0);
    assert_eq!(split_entries("").len(), 0);
    let es = split_entries("@misc{ok, title={T}} @article{a, title = {Never closed");
    assert_eq!(es.len(), 1);
    assert_eq!(es[0].key_raw, "ok");
}

#[test]
fn splitter_escaped_at_does_not_resync() {
    let es = split_entries("@misc{k, note = {mail me \\@ home}}");
    assert_eq!(es.len(), 1);
    assert_eq!(es[0].body, " note = {mail me \\@ home}");
}

#[test]
fn splitter_key_ends_at_unescaped_comma() {
    let es = split_entries("@misc{a\\,b, title={T}}");
    assert_eq!(es.len(), 1);
    assert_eq!(es[0].key_raw, "a\\,b");
}

#[test]
fn bib_entries_have_lookup_key_and_block() {
    let es = parse_bib_entries("x @article{ my\\_key ,\n title={T}\n}\ntrailing");
    assert_eq!(es.len(), 1);
    assert_eq!(es[0].0, "my_key");
    assert_eq!(es[0].1, "@article{ my\\_key ,\n title={T}\n}");
}

#[test]
fn fields_braced_and_quoted() {
    let fs = extract_fields(" Title = {A  {B}\n  C},\n YEAR=\"20\\\"20\", junk, note = {open");
    assert_eq!(fs.len(), 2);
    assert_eq!(fs[0], Field { name: "title".to_string(), value: "A {B} C".to_string() });
    assert_eq!(fs[1], Field { name: "year".to_string(), value: "20\\\"20".to_string() });
}

#[test]
fn fields_value_is_normalized() {
    let fs = extract_fields("a = {  x \t\n y  }");
    assert_eq!(fs.len(), 1);
    assert_eq!(fs[0].value, "x y");
}

#[test]
fn names_split_on_and() {
    assert_eq!(split_names("Jane Doe and  John Roe  and "), vec!["Jane Doe", "John Roe"]);
    assert_eq!(split_names("Anderson and Band"), vec!["Anderson", "Band"]);
    assert_eq!(split_names("A AND B"), vec!["A AND B"]);
    assert!(split_names("").is_empty());
    assert!(split_names("  ").is_empty());
}

#[test]
fn mapper_table_and_policies() {
    let f = |n: &str, v: &str| Field { name: n.to_string(), value: v.to_string() };
    let fields = vec![
        f("title", "T"),
        f("author", "Doe, Jane and Roe, John"),
        f("editor", "Ed One"),
        f("year", "19x9"),
        f("doi", "10.1/x"),
        f("isbn", "123"),
        f("url", "http://u"),
        f("journal", "J"),
        f("booktitle", "B"),
        f("publisher", "P"),
        f("series", "S"),
        f("volume", "V"),
        f("number", "N"),
        f("pages", "1--2"),
        f("location", "L"),
        f("address", "A"),
        f("unknown", "zzz"),
    ];
    let r = map_entry("InProceedings", " k ", &fields).unwrap();
    assert_eq!(r.kind, RefKind::InProceedings);
    assert_eq!(r.title, "T");
    assert_eq!(r.authors, vec!["Doe, Jane", "Roe, John"]);
    assert_eq!(r.editors, vec!["Ed One"]);
    assert_eq!(r.year, None);
    assert_eq!(r.identifiers.doi.as_deref(), Some("10.1/x"));
    assert_eq!(r.identifiers.isbn.as_deref(), Some("123"));
    assert_eq!(r.identifiers.url.as_deref(), Some("http://u"));
    assert_eq!(r.identifiers.arxiv, None);
    let v = r.venue.clone().unwrap();
    assert_eq!(v.journal.as_deref(), Some("J"));
    assert_eq!(v.booktitle.as_deref(), Some("B"));
    assert_eq!(v.publisher.as_deref(), Some("P"));
    assert_eq!(v.series.as_deref(), Some("S"));
    assert_eq!(v.volume.as_deref(), Some("V"));
    assert_eq!(v.issue.as_deref(), Some("N"));
    assert_eq!(v.pages.as_deref(), Some("1--2"));
    assert_eq!(v.address.as_deref(), Some("A"));
    assert_eq!(r.id, "k");
    assert!(r.tags.is_empty());
    assert!(r.attachments.is_empty());
    assert_eq!(r.notes, None);
}

#[test]
fn mapper_unknown_kind_is_misc() {
    let fields = vec![Field { name: "title".to_string(), value: "T".to_string() }];
    assert_eq!(map_entry("techreport", "k", &fields).unwrap().kind, RefKind::Misc);
    assert_eq!(map_entry("BOOK", "k", &fields).unwrap().kind, RefKind::Book);
    assert_eq!(map_entry("InBook", "k", &fields).unwrap().kind, RefKind::InBook);
    assert_eq!(map_entry("incollection", "k", &fields).unwrap().kind, RefKind::InCollection);
    assert_eq!(map_entry("", "k", &fields).unwrap().kind, RefKind::Misc);
}

#[test]
fn mapper_rejects_without_title() {
    let fields = vec![Field { name: "author".to_string(), value: "A".to_string() }];
    assert_eq!(map_entry("article", "  a/b:c  ", &fields), Err("a_b_c".to_string()));
}

#[test]
fn import_goes_on_after_a_rejection() {
    let input = "@article{bad, author={X}}\n@article{good, title={Good One}, year={2001}}";
    let out = parse_bibtex(input);
    assert_eq!(out.rejected, vec!["bad"]);
    assert_eq!(out.records.len(), 1);
    assert_eq!(out.records[0].id, "good");
}

#[test]
fn closing_braces_move_to_line_start() {
    for text in [
        "@a{k,\n  title = {T}\n  }\n",
        "@a{k,\r\n  x = {y}\r\n\t}\r\n@b{j,\n }",
        "",
        "\n",
        "}\n",
        " } x\n  }",
        "one line",
        "a\r",
        "a\n\r",
        "a\r\r\n\n\nb",
    ] {
        let want = text
            .lines()
            .map(|line| if line.trim_start() == "}" { "}".to_string() } else { line.to_string() })
            .collect::<Vec<_>>()
            .join("\n");
        assert_eq!(normalize_closing_braces(text), want, "{:?}", text);
    }
    assert_eq!(normalize_closing_braces("@a{k,\n  t = {T}\n   }\n"), "@a{k,\n  t = {T}\n}");
}

#[test]
fn whole_entries_are_counted_by_their_at_signs() {
    let text = "% notes\n@article{a, title={One {nested {deep}} thing}}\n\n@book{b,\n  title = \"Two\"\n}\ntrailing words\n\\@misc{c, x={}}";
    let at_signs = text.chars().filter(|c| *c == '@').count();
    assert_eq!(at_signs, 3);
    let es = split_entries(text);
    assert_eq!(es.len(), at_signs);
    let keys: Vec<&str> = es.iter().map(|e| e.key_raw.as_str()).collect();
    assert_eq!(keys, vec!["a", "b", "c"]);
    assert_eq!(es[0].block, "@article{a, title={One {nested {deep}} thing}}");
    assert_eq!(es[1].block, "@book{b,\n  title = \"Two\"\n}");
    assert_eq!(es[2].block, "@misc{c, x={}}");
}

#[test]
fn escaped_at_sign_inside_a_whole_entry_is_passed_over() {
    let text = "@book{b, note = {mail \\@ home}} and @misc{c, x={}}";
    let es = split_entries(text);
    assert_eq!(es.len(), 2);
    assert_eq!(es[0].body, " note = {mail \\@ home}");
    assert_eq!(es[1].key_raw, "c");
}

#[test]
fn entry_behind_a_backslash_is_split_off() {
    let es = parse_bib_entries("\\@a{k,x}");
    assert_eq!(es, vec![("k".to_string(), "@a{k,x}".to_string())]);
    let raw = split_entries("text \\@a{k,x} more");
    assert_eq!(raw.len(), 1);
    assert_eq!(raw[0].kind_raw, "a");
    assert_eq!(raw[0].body, "x");
}

#[test]
fn scan_goes_on_behind_an_entry_that_cannot_be_delimited() {
    let es = split_entries("@a{x @b, {y,}");
    assert_eq!(es.len(), 1);
    assert_eq!(es[0].kind_raw, "b");
    assert_eq!(es[0].key_raw, "y");
    assert_eq!(es[0].body, "");
    assert_eq!(es[0].block, "@b, {y,}");
    let more = split_entries("@open{k, {never \\@late{j, t={T}}");
    assert_eq!(more.len(), 1);
    assert_eq!(more[0].key_raw, "j");
    assert_eq!(split_entries("@@@").len(), 0);
    assert_eq!(parse_bibtex("@a{x @b, {y,}").rejected, vec!["y"]);
}

#[test]
fn at_sign_in_a_key_is_no_entry_of_its_own() {
    let es = split_entries("@a@b{k, x={y}}");
    assert_eq!(es.len(), 1);
    assert_eq!(es[0].kind_raw, "a");
    assert_eq!(es[0].key_raw, "k");
}

#[test]
fn imported_record_is_named_by_its_key() {
    let out = parse_bibtex("@techreport{k, title={T}}");
    assert!(out.rejected.is_empty());
    assert_eq!(out.records.len(), 1);
    assert_eq!(out.records[0].id, "k");
    assert_eq!(out.records[0].title, "T");
    assert_eq!(out.records[0].kind, RefKind::Misc);
}

#[test]
fn imported_key_is_trimmed_and_made_safe() {
    let out = parse_bibtex("@article{ DBLP:conf/x ,\n  title = {T}\n}");
    assert_eq!(out.records.len(), 1);
    assert_eq!(out.records[0].id, "DBLP_conf_x");
    let fields = vec![Field { name: "title".to_string(), value: "T".to_string() }];
    assert_eq!(map_entry("article", "  a/b:c  ", &fields).unwrap().id, "a_b_c");
}

#[test]
fn imported_records_keep_input_order() {
    let input = "@article{a,\n  title = {A}\n}\n@article{b,\n  year = {2020}\n}\n@article{c,\n  title = {C}\n}";
    let out = parse_bibtex(input);
    assert_eq!(out.records.len(), 2);
    assert_eq!((out.records[0].id.as_str(), out.records[0].title.as_str()), ("a", "A"));
    assert_eq!((out.records[1].id.as_str(), out.records[1].title.as_str()), ("c", "C"));
    assert_eq!(out.rejected, vec!["b"]);
}
