use elaine::citations::{extract_citations_from_tex, scan_citations, CitationSet};

fn set_of(text: &str) -> Vec<String> {
    let mut keys = CitationSet::new();
    extract_citations_from_tex(text, &mut keys);
    let mut v = keys.keys();
    v.sort();
    v
}

#[test]
fn nested_braces_stay_in_the_key() {
    assert_eq!(scan_citations("\\cite{key{a}, keyb}"), vec!["key{a}", "keyb"]);
    assert_eq!(set_of("\\cite{key{a}, keyb}"), vec!["keyb", "key{a}"]);
}

#[test]
fn command_variants_are_found() {
    let text = "a \\citep{p} b \\citet*{t} c \\citealp \n {x} d \\Cite{no} \\citeauthor{au}";
    assert_eq!(scan_citations(text), vec!["p", "t", "x", "au"]);
}

#[test]
fn optional_argument_is_no_match() {
    assert_eq!(scan_citations("see \\cite[p.~3]{doe} and \\cite{roe}"), vec!["roe"]);
}

#[test]
fn escaped_underscore_is_read() {
    assert_eq!(scan_citations("\\cite{my\\_key, other\\_one\\_}"), vec!["my_key", "other_one_"]);
}

#[test]
fn empty_pieces_are_dropped() {
    assert_eq!(scan_citations("\\cite{a,, b ,\t,}"), vec!["a", "b"]);
    assert!(scan_citations("\\cite{}").is_empty());
    assert!(scan_citations("\\cite{ , }").is_empty());
}

#[test]
fn unterminated_list_gives_nothing() {
    assert!(scan_citations("\\cite{abc").is_empty());
    assert!(scan_citations("\\cite{a{b}").is_empty());
    assert_eq!(scan_citations("\\cite{one} \\cite{two"), vec!["one"]);
}

#[test]
fn cite_without_list_is_passed_over() {
    assert!(scan_citations("\\cite").is_empty());
    assert!(scan_citations("\\cite ").is_empty());
    assert!(scan_citations("\\citation").is_empty());
    assert!(scan_citations("cite{a}").is_empty());
    assert!(scan_citations("\\ci te{a}").is_empty());
    assert!(scan_citations("").is_empty());
    assert_eq!(scan_citations("\\cite \\cite{x}"), vec!["x"]);
    assert_eq!(scan_citations("\\cite**{y} \\cite*{z}"), vec!["z"]);
}

#[test]
fn keys_come_in_order_with_repeats() {
    assert_eq!(scan_citations("\\cite{b,a}\\cite{a}"), vec!["b", "a", "a"]);
}

#[test]
fn set_collapses_repeats() {
    let mut keys = CitationSet::new();
    assert!(keys.is_empty());
    extract_citations_from_tex("\\cite{a,b} text \\citep{b, c}", &mut keys);
    assert_eq!(keys.len(), 3);
    extract_citations_from_tex("\\cite{c,d}", &mut keys);
    assert_eq!(keys.len(), 4);
    assert!(keys.contains("a") && keys.contains("b") && keys.contains("c") && keys.contains("d"));
    assert!(!keys.contains("e"));
    assert_eq!(keys.keys(), vec!["a", "b", "c", "d"]);
}

#[test]
fn set_insert_tells_whether_new() {
    let mut keys = CitationSet::new();
    assert!(keys.insert("k".to_string()));
    assert!(!keys.insert("k".to_string()));
    assert!(keys.insert("K".to_string()));
    assert_eq!(keys.len(), 2);
}

#[test]
fn text_beyond_ascii_is_scanned() {
    assert_eq!(scan_citations("caf\u{e9} \\cite{m\u{fc}ller2020} \u{2014}"), vec!["m\u{fc}ller2020"]);
}

#[test]
fn deep_nesting_is_linear() {
    let mut text = String::from("\\cite{");
    for _ in 0..20000 {
        text.push('{');
    }
    text.push_str("k");
    for _ in 0..20000 {
        text.push('}');
    }
    text.push_str("} \\cite{z}");
    let keys = scan_citations(&text);
    assert_eq!(keys.len(), 2);
    assert_eq!(keys[1], "z");
}
