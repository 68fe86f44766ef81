use elaine::ordering::{
    list_order, order_keys, order_texts, sort_by_key, sort_references, sort_refs, ListOrder,
    SortKey,
};
use elaine::reference::Reference;
use elaine::text::{
    from_chars, has_prefix, has_suffix, has_text, join, normalize, pad_left, pad_right, replace,
    split, split_items, to_chars, trim,
};

fn c(s: &str) -> Vec<char> {
    s.chars().collect()
}

fn rec(id: &str, year: Option<u16>, author: Option<&str>) -> Reference {
    let mut r = Reference::new_minimal(id, id);
    r.year = year;
    r.authors = author.iter().map(|a| a.to_string()).collect();
    r
}

fn ids(refs: &[Reference]) -> Vec<String> {
    refs.iter().map(|r| r.id.clone()).collect()
}

#[test]
fn texts_order_like_strings() {
    let samples = ["", "a", "ab", "b", "B", "abc", "ab\u{e9}", "\u{10348}", "z", "aa", "a b"];
    for x in samples {
        for y in samples {
            let want = match x.cmp(y) {
                std::cmp::Ordering::Less => -1,
                std::cmp::Ordering::Equal => 0,
                std::cmp::Ordering::Greater => 1,
            };
            assert_eq!(order_texts(&c(x), &c(y)), want, "{:?} against {:?}", x, y);
        }
    }
}

#[test]
fn keys_order_by_rank_then_texts() {
    let k = |rank, a: &str, b: &str| SortKey { rank, first: c(a), second: c(b) };
    assert_eq!(order_keys(&k(1, "z", "z"), &k(2, "a", "a")), -1);
    assert_eq!(order_keys(&k(2, "a", "z"), &k(2, "b", "a")), -1);
    assert_eq!(order_keys(&k(2, "a", "b"), &k(2, "a", "a")), 1);
    assert_eq!(order_keys(&k(2, "a", "a"), &k(2, "a", "a")), 0);
}

#[test]
fn sort_by_key_is_stable() {
    let k = |rank| SortKey { rank, first: Vec::new(), second: Vec::new() };
    let mut items = vec![(k(2), 'a'), (k(1), 'b'), (k(2), 'c'), (k(1), 'd'), (k(0), 'e')];
    sort_by_key(&mut items);
    let order: Vec<char> = items.iter().map(|p| p.1).collect();
    assert_eq!(order, vec!['e', 'b', 'd', 'a', 'c']);
}

#[test]
fn references_sort_by_year_author_id() {
    let mut refs = vec![
        rec("n2", None, Some("Zed")),
        rec("b", Some(2020), Some("Roe")),
        rec("a", Some(2020), Some("Roe")),
        rec("c", Some(2020), Some("Doe")),
        rec("d", Some(1999), Some("Zed")),
        rec("n1", None, None),
        rec("e", Some(2020), None),
    ];
    sort_references(&mut refs);
    assert_eq!(ids(&refs), vec!["d", "e", "c", "a", "b", "n1", "n2"]);
}

#[test]
fn references_sort_like_sort_by() {
    let mut refs = vec![
        rec("x", Some(3), Some("b")),
        rec("y", Some(3), Some("a")),
        rec("z", None, Some("a")),
        rec("w", Some(1), None),
        rec("v", Some(3), Some("a")),
    ];
    let mut want = refs.clone();
    want.sort_by(|a, b| {
        let by_year = match (&a.year, &b.year) {
            (Some(x), Some(y)) => x.cmp(y),
            (Some(_), None) => std::cmp::Ordering::Less,
            (None, Some(_)) => std::cmp::Ordering::Greater,
            (None, None) => std::cmp::Ordering::Equal,
        };
        by_year
            .then_with(|| {
                let x = a.authors.first().map(|s| s.as_str()).unwrap_or("");
                let y = b.authors.first().map(|s| s.as_str()).unwrap_or("");
                x.cmp(y)
            })
            .then_with(|| a.id.cmp(&b.id))
    });
    sort_references(&mut refs);
    assert_eq!(refs, want);
    let mut none: Vec<Reference> = Vec::new();
    sort_references(&mut none);
    assert!(none.is_empty());
}

#[test]
fn listing_orders() {
    assert_eq!(list_order(None), ListOrder::ById);
    assert_eq!(list_order(Some("id")), ListOrder::ById);
    assert_eq!(list_order(Some("title")), ListOrder::ByTitle);
    assert_eq!(list_order(Some("author")), ListOrder::ByAuthor);
    assert_eq!(list_order(Some("year")), ListOrder::ByYear);
    assert_eq!(list_order(Some("size")), ListOrder::AsIs);
}

fn lines() -> Vec<(String, Option<Reference>)> {
    let mut a = rec("m", Some(2001), Some("Cee"));
    a.title = "Zebra".to_string();
    let mut b = rec("k", None, Some("Bee"));
    b.title = "Apple".to_string();
    let mut d = rec("z", Some(1990), None);
    d.title = "Mango".to_string();
    vec![
        ("m".to_string(), Some(a)),
        ("gone".to_string(), None),
        ("k".to_string(), Some(b)),
        ("z".to_string(), Some(d)),
    ]
}

fn line_ids(v: &[(String, Option<Reference>)]) -> Vec<String> {
    v.iter().map(|l| l.0.clone()).collect()
}

#[test]
fn listing_sorts_by_each_order() {
    let mut v = lines();
    sort_refs(&mut v, None);
    assert_eq!(line_ids(&v), vec!["gone", "k", "m", "z"]);
    let mut v = lines();
    sort_refs(&mut v, Some("id"));
    assert_eq!(line_ids(&v), vec!["gone", "k", "m", "z"]);
    let mut v = lines();
    sort_refs(&mut v, Some("title"));
    assert_eq!(line_ids(&v), vec!["gone", "k", "z", "m"]);
    let mut v = lines();
    sort_refs(&mut v, Some("author"));
    assert_eq!(line_ids(&v), vec!["gone", "z", "k", "m"]);
    let mut v = lines();
    sort_refs(&mut v, Some("year"));
    assert_eq!(line_ids(&v), vec!["gone", "k", "z", "m"]);
    let mut v = lines();
    sort_refs(&mut v, Some("other"));
    assert_eq!(line_ids(&v), vec!["m", "gone", "k", "z"]);
}

#[test]
fn chars_round_trip() {
    let s = "a\u{e9}\u{10348} \n";
    assert_eq!(from_chars(&to_chars(s)), s);
    assert_eq!(to_chars(s).len(), 5);
    assert_eq!(to_chars(""), Vec::<char>::new());
}

#[test]
fn trim_is_unicode() {
    assert_eq!(trim(&c(" \t\u{a0}x y\u{2003}\n")), c("x y"));
    assert_eq!(trim(&c("   ")), c(""));
    assert_eq!(trim(&c("")), c(""));
    assert_eq!(trim(&c("x")), c("x"));
}

#[test]
fn split_like_str_split() {
    for (s, p) in [("a,b,,c", ","), ("", ","), (",", ","), ("aXXbXXX", "XX"), ("abc", "abc"),
        ("abc", "abcd"), ("aaa", "aa"), ("x and y and z", " and ")]
    {
        let got: Vec<String> = split(&c(s), &c(p)).iter().map(|v| v.iter().collect()).collect();
        let want: Vec<String> = s.split(p).map(|x| x.to_string()).collect();
        assert_eq!(got, want, "{:?} by {:?}", s, p);
    }
    assert_eq!(split(&c("abc"), &c("")), vec![c("abc")]);
}

#[test]
fn replace_like_str_replace() {
    for (s, p, t) in [("a\\_b\\_", "\\_", "_"), ("aaa", "aa", "b"), ("abc", "x", "y"), ("", "a", "b"),
        ("abab", "ab", ""), ("xyz", "xyz", "123456")]
    {
        let got: String = replace(&c(s), &c(p), &c(t)).iter().collect();
        assert_eq!(got, s.replace(p, t), "{:?}", s);
    }
    assert_eq!(replace(&c("abc"), &c(""), &c("x")), c("abc"));
}

#[test]
fn items_are_trimmed_and_kept() {
    assert_eq!(split_items(&c(" a ;; b;"), &c(";")), vec![c("a"), c("b")]);
    assert_eq!(join(&vec![c("a"), c(""), c("b")], &c("+")), c("a++b"));
    assert_eq!(join(&Vec::new(), &c("+")), c(""));
    assert_eq!(join(&vec![c("a")], &c("+")), c("a"));
}

#[test]
fn normalize_collapses_whitespace() {
    assert_eq!(normalize(&c("  a \n\n b\t\tc  ")), c("a b c"));
    assert_eq!(normalize(&c("a\u{a0}\u{a0}b")), c("a b"));
    assert_eq!(normalize(&c("\n")), c(""));
    assert_eq!(normalize(&c("ab")), c("ab"));
}

#[test]
fn padding_and_affixes() {
    assert_eq!(pad_right(&c("ab"), 4, '.'), c("ab.."));
    assert_eq!(pad_right(&c("abcd"), 4, '.'), c("abcd"));
    assert_eq!(pad_right(&c("abcde"), 4, '.'), c("abcde"));
    assert_eq!(pad_left(&c("7"), 4, '0'), c("0007"));
    assert_eq!(pad_left(&c("12345"), 4, '0'), c("12345"));
    assert!(has_prefix(&c("abc"), &c("ab")) && has_prefix(&c("abc"), &c("")));
    assert!(!has_prefix(&c("abc"), &c("bc")) && !has_prefix(&c("a"), &c("ab")));
    assert!(has_suffix(&c("abc"), &c("bc")) && has_suffix(&c("abc"), &c("")));
    assert!(!has_suffix(&c("abc"), &c("ab")) && !has_suffix(&c("c"), &c("bc")));
    assert!(has_text(&c("abc"), &c("b")) && !has_text(&c("abc"), &c("ca")));
}

#[test]
fn ids_sort_like_strings() {
    let mut ids: Vec<String> =
        ["b", "a", "B", "ab", "", "a", "\u{e9}", "z"].iter().map(|s| s.to_string()).collect();
    let mut want = ids.clone();
    want.sort();
    elaine::ordering::sort_ids(&mut ids);
    assert_eq!(ids, want);
}

#[test]
fn projects_sort_by_id() {
    let mut all = vec![
        elaine::project::Project::new("paper", "s1".to_string()),
        elaine::project::Project::new("Thesis", "s2".to_string()),
        elaine::project::Project::new("notes", "s3".to_string()),
    ];
    elaine::ordering::sort_projects(&mut all);
    let ids: Vec<&str> = all.iter().map(|p| p.id.as_str()).collect();
    assert_eq!(ids, vec!["Thesis", "notes", "paper"]);
}
