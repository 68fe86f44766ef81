use elaine::id::{make_ref_id, make_sid, sid_short};
use elaine::number::{decimal, parse_u16};

fn names(v: &[&str]) -> Vec<String> {
    v.iter().map(|s| s.to_string()).collect()
}

fn chars(s: &str) -> Vec<char> {
    s.chars().collect()
}

#[test]
fn slug_of_first_last_name() {
    assert_eq!(make_ref_id(&names(&["Jane Doe"]), Some(2020), "A Study"), "doe2020astudy");
}

#[test]
fn slug_of_last_comma_first_name() {
    assert_eq!(make_ref_id(&names(&["Doe , Jane"]), Some(2020), "A Study"), "doe2020astudy");
    assert_eq!(make_ref_id(&names(&["van der Waals, J. D."]), Some(1873), "Over"), "vande1873over");
}

#[test]
fn slug_uses_first_author_only() {
    let a = make_ref_id(&names(&["Jane Doe", "John Roe"]), Some(2020), "T");
    let b = make_ref_id(&names(&["Jane Doe"]), Some(2020), "T");
    assert_eq!(a, b);
    assert_eq!(a, "doe2020t");
}

#[test]
fn slug_without_author_uses_sentinel() {
    assert_eq!(make_ref_id(&[], Some(1999), "Title"), "unkno1999title");
}

#[test]
fn slug_year_is_four_digits_at_least() {
    assert_eq!(make_ref_id(&names(&["Doe"]), None, "T"), "doe0000t");
    assert_eq!(make_ref_id(&names(&["Doe"]), Some(7), "T"), "doe0007t");
    assert_eq!(make_ref_id(&names(&["Doe"]), Some(0), "T"), "doe0000t");
    assert_eq!(make_ref_id(&names(&["Doe"]), Some(12345), "T"), "doe12345t");
    assert_eq!(make_ref_id(&names(&["Doe"]), Some(65535), "T"), "doe65535t");
}

#[test]
fn slug_truncates_surname_and_title() {
    assert_eq!(
        make_ref_id(&names(&["Arnold Schwarzenegger"]), Some(1985), "The Art of Computer Programming"),
        "schwa1985theart"
    );
}

#[test]
fn slug_is_the_same_on_every_call() {
    let a = names(&["Jane Doe"]);
    let first = make_ref_id(&a, Some(2020), "A Study");
    let second = make_ref_id(&a, Some(2020), "A Study");
    assert_eq!(first, second);
}

#[test]
fn slug_ignores_title_beyond_prefix() {
    let a = names(&["Jane Doe"]);
    let one = make_ref_id(&a, Some(2020), "A Study of Things");
    let two = make_ref_id(&a, Some(2020), "A Study, and Other Matters");
    assert_eq!(one, two);
    assert_eq!(one, "doe2020astudy");
}

#[test]
fn slug_strips_what_is_not_alphanumeric() {
    assert_eq!(make_ref_id(&names(&["Mary Smith-Jones"]), Some(2001), "C++: a (short) intro"), "smith2001cashor");
    assert_eq!(make_ref_id(&names(&["O'Neil"]), Some(2001), "!!!"), "oneil2001");
}

#[test]
fn slug_keeps_letters_beyond_ascii() {
    assert_eq!(
        make_ref_id(&names(&["J\u{fc}rgen M\u{dc}LLER"]), Some(1999), "\u{dc}ber Alles"),
        "m\u{fc}lle1999\u{fc}beral"
    );
}

#[test]
fn slug_surname_is_last_token() {
    assert_eq!(make_ref_id(&names(&["  Jane   Q.  Doe \t"]), Some(1), "x"), "doe0001x");
    assert_eq!(make_ref_id(&names(&["Cher"]), Some(1), "x"), "cher0001x");
    assert_eq!(make_ref_id(&names(&["   "]), Some(1), "x"), "0001x");
    assert_eq!(make_ref_id(&names(&[""]), Some(1), "x"), "0001x");
}

#[test]
fn short_sid_is_first_eight() {
    assert_eq!(sid_short("123e4567-e89b-42d3-a456-426614174000"), "123e4567");
    assert_eq!(sid_short("12345678"), "12345678");
    assert_eq!(sid_short("1234567"), "1234567");
    assert_eq!(sid_short(""), "");
}

#[test]
fn fresh_sid_is_a_random_uuid() {
    let sid = make_sid();
    let c: Vec<char> = sid.chars().collect();
    assert_eq!(c.len(), 36);
    for (i, ch) in c.iter().enumerate() {
        if i == 8 || i == 13 || i == 18 || i == 23 {
            assert_eq!(*ch, '-');
        } else {
            assert!(ch.is_ascii_digit() || ('a'..='f').contains(ch));
        }
    }
    assert_eq!(c[14], '4');
    assert!(matches!(c[19], '8' | '9' | 'a' | 'b'));
    assert_ne!(sid, make_sid());
}

#[test]
fn decimal_writes_numbers() {
    assert_eq!(decimal(0), chars("0"));
    assert_eq!(decimal(9), chars("9"));
    assert_eq!(decimal(10), chars("10"));
    assert_eq!(decimal(2020), chars("2020"));
    assert_eq!(decimal(65535), chars("65535"));
}

#[test]
fn parse_u16_reads_what_std_reads() {
    for s in ["0", "7", "007", "2020", "65535", "65536", "99999999999999999999", "+12", "+", "",
        "-1", "12a", "a12", " 12", "12 ", "1_000", "++1", "+0", "\u{661}"]
    {
        assert_eq!(parse_u16(&chars(s)), s.parse::<u16>().ok(), "input {:?}", s);
    }
    assert_eq!(parse_u16(&chars("2020")), Some(2020));
    assert_eq!(parse_u16(&chars("65536")), None);
}
