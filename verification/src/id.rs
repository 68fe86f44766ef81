//! Identifiers of records: the opaque stable identifier and the readable slug.

use vstd::prelude::*;
use vstd::string::StrSliceExecFns;
use crate::number::{decimal, decimal_digits};
use crate::text::{unicode_alphanumeric,
    alphanumerics, drop_whitespace_before, find_char, find_char_at, from_chars,
    leading_alphanumerics, append, pad_left, padded_left, prefix_of, slice_of, texts, to_chars,
    trim, trimmed, unicode_lowercase, unicode_whitespace,
};

verus! {

/// How many characters of the first author's surname go into a slug.
pub const SURNAME_LEN: usize = 5;

/// How many characters of the title go into a slug.
pub const TITLE_LEN: usize = 6;

/// How many characters of a stable identifier are shown in listings.
pub const SHORT_LEN: usize = 8;

/// Whether `c` is a hexadecimal digit in lower case.
pub open spec fn is_lower_hex(c: char) -> bool {
    ('0' <= c && c <= '9') || ('a' <= c && c <= 'f')
}

/// Whether `s` has the canonical form of a random (version 4) UUID: 36
/// characters, hyphens after 8, 13, 18 and 23 of them, lower-case hexadecimal
/// digits elsewhere, with the version and variant digits of a random UUID.
pub open spec fn is_stable_id(s: Seq<char>) -> bool {
    &&& s.len() == 36
    &&& forall|i: int|
        0 <= i < 36 ==> if i == 8 || i == 13 || i == 18 || i == 23 {
            #[trigger] s[i] == '-'
        } else {
            is_lower_hex(s[i])
        }
    &&& s[14] == '4'
    &&& (s[19] == '8' || s[19] == '9' || s[19] == 'a' || s[19] == 'b')
}

/// A fresh stable identifier.
///
/// Calls `uuid::Uuid::new_v4` and renders the value with its `Display` impl.
/// Not proved: that the text is the hyphenated lower-case form of a UUID
/// whose version digit is 4 and whose variant digit is one of 8, 9, a, b.
/// Which identifier comes back is left open, and two calls may differ. The
/// outside function panics where the operating system gives no random bytes.
#[verifier::external_body]
pub fn make_sid() -> (sid: String)
    ensures
        is_stable_id(sid@),
{
    uuid::Uuid::new_v4().to_string()
}

/// The beginning of a stable identifier as shown in listings: its first
/// eight characters, or all of it where it has fewer.
pub fn sid_short(sid: &str) -> (short: &str)
    ensures
        short@ == prefix_of(sid@, SHORT_LEN as nat),
{
    let n = sid.unicode_len();
    if n >= SHORT_LEN {
        sid.substring_char(0, SHORT_LEN)
    } else {
        sid
    }
}

/// Where the run of non-whitespace that ends before position `j` begins.
pub open spec fn word_start(s: Seq<char>, j: int) -> int
    decreases j,
{
    if 0 < j <= s.len() && !unicode_whitespace(s[j - 1]) {
        word_start(s, j - 1)
    } else {
        j
    }
}

/// The last whitespace-delimited token of `s`; `s` itself where it holds
/// nothing but whitespace.
pub open spec fn last_word(s: Seq<char>) -> Seq<char> {
    let end = drop_whitespace_before(s, 0, s.len() as int);
    if end <= 0 {
        s
    } else {
        s.subrange(word_start(s, end), end)
    }
}

/// The surname in an author's name: what stands before the first comma,
/// trimmed, where the name has a comma, and its last token otherwise.
pub open spec fn surname(name: Seq<char>) -> Seq<char> {
    let comma = find_char(name, ',', 0);
    if comma < name.len() {
        trimmed(name.subrange(0, comma))
    } else {
        last_word(name)
    }
}

/// The first `n` alphanumeric characters of the lowercase form of `s`.
pub open spec fn slug_part(s: Seq<char>, n: nat) -> Seq<char> {
    prefix_of(alphanumerics(unicode_lowercase(s)), n)
}

/// The part of a slug that stands for the first author.
pub open spec fn author_part(authors: Seq<Seq<char>>) -> Seq<char> {
    if authors.len() == 0 {
        "unkno"@
    } else {
        slug_part(surname(authors[0]), SURNAME_LEN as nat)
    }
}

/// The part of a slug that stands for the year: at least four digits, and
/// `0000` where there is no year.
pub open spec fn year_part(year: Option<u16>) -> Seq<char> {
    let y: nat = match year {
        Some(y) => y as nat,
        None => 0,
    };
    padded_left(decimal_digits(y), 4, '0')
}

/// The slug of a record: surname prefix, year, title prefix.
pub open spec fn slug(authors: Seq<Seq<char>>, year: Option<u16>, title: Seq<char>) -> Seq<char> {
    author_part(authors) + year_part(year) + slug_part(title, TITLE_LEN as nat)
}

/// The last whitespace-delimited token of `s`.
pub fn last_word_of(s: &Vec<char>) -> (out: Vec<char>)
    ensures
        out@ == last_word(s@),
{
    let mut end: usize = s.len();
    while end > 0 && s[end - 1].is_whitespace()
        invariant
            end <= s.len(),
            drop_whitespace_before(s@, 0, s.len() as int) == drop_whitespace_before(
                s@,
                0,
                end as int,
            ),
        decreases end,
    {
        end -= 1;
    }
    if end == 0 {
        return slice_of(s, 0, s.len());
    }
    let mut start: usize = end;
    while start > 0 && !s[start - 1].is_whitespace()
        invariant
            start <= end <= s.len(),
            word_start(s@, end as int) == word_start(s@, start as int),
        decreases start,
    {
        start -= 1;
    }
    slice_of(s, start, end)
}

/// The surname in an author's name.
pub fn surname_of(name: &Vec<char>) -> (out: Vec<char>)
    ensures
        out@ == surname(name@),
{
    let comma = find_char_at(name, ',', 0);
    if comma < name.len() {
        let head = slice_of(name, 0, comma);
        trim(&head)
    } else {
        last_word_of(name)
    }
}

/// The first `n` alphanumeric characters of the lowercase form of `s`.
pub fn slug_part_of(s: &str, n: usize) -> (out: Vec<char>)
    ensures
        out@ == slug_part(s@, n as nat),
{
    let lower = s.to_lowercase();
    let chars = to_chars(lower.as_str());
    leading_alphanumerics(&chars, n)
}

/// The slug of a record, derived from its first author, its year and its
/// title and from nothing else.
pub fn make_ref_id(authors: &[String], year: Option<u16>, title: &str) -> (id: String)
    ensures
        id@ == slug(texts(authors@), year, title@),
{
    let mut out: Vec<char> = if authors.len() == 0 {
        to_chars("unkno")
    } else {
        let name = to_chars(authors[0].as_str());
        let last = from_chars(&surname_of(&name));
        slug_part_of(last.as_str(), SURNAME_LEN)
    };
    let y: u16 = match year {
        Some(y) => y,
        None => 0,
    };
    let digits = pad_left(&decimal(y), 4, '0');
    append(&mut out, &digits);
    let tail = slug_part_of(title, TITLE_LEN);
    append(&mut out, &tail);
    from_chars(&out)
}

/// The alphanumeric characters of a text made of two parts are those of the
/// first part followed by those of the second.
proof fn lemma_alphanumerics_concat(a: Seq<char>, b: Seq<char>)
    ensures
        alphanumerics(a + b) == alphanumerics(a) + alphanumerics(b),
{
    Seq::filter_distributes_over_add(a, b, |c: char| unicode_alphanumeric(c));
}

/// What follows the part of a title that fills the title prefix does not
/// reach the slug: two titles with a common beginning that alone holds
/// enough alphanumeric characters give the same slug.
///
/// The law is stated for titles whose lowercase form is that of the common
/// beginning followed by that of the rest. The Unicode case mapping does not
/// grant this of every text: a Greek capital sigma is mapped by what follows
/// it.
pub proof fn lemma_slug_ignores_title_tail(
    authors: Seq<Seq<char>>,
    year: Option<u16>,
    head: Seq<char>,
    tail_a: Seq<char>,
    tail_b: Seq<char>,
)
    requires
        alphanumerics(unicode_lowercase(head)).len() >= TITLE_LEN,
        unicode_lowercase(head + tail_a) == unicode_lowercase(head) + unicode_lowercase(tail_a),
        unicode_lowercase(head + tail_b) == unicode_lowercase(head) + unicode_lowercase(tail_b),
    ensures
        slug(authors, year, head + tail_a) == slug(authors, year, head + tail_b),
{
    let h = alphanumerics(unicode_lowercase(head));
    lemma_alphanumerics_concat(unicode_lowercase(head), unicode_lowercase(tail_a));
    lemma_alphanumerics_concat(unicode_lowercase(head), unicode_lowercase(tail_b));
    let a = alphanumerics(unicode_lowercase(tail_a));
    let b = alphanumerics(unicode_lowercase(tail_b));
    assert(prefix_of(h + a, TITLE_LEN as nat) =~= prefix_of(h, TITLE_LEN as nat));
    assert(prefix_of(h + b, TITLE_LEN as nat) =~= prefix_of(h, TITLE_LEN as nat));
}

/// Equal inputs give equal slugs. More than that: a slug depends on the
/// title through its title prefix alone, on the authors through the surname
/// prefix of the first, and on the year.
pub proof fn lemma_slug_by_parts(
    authors_a: Seq<Seq<char>>,
    authors_b: Seq<Seq<char>>,
    year: Option<u16>,
    title_a: Seq<char>,
    title_b: Seq<char>,
)
    requires
        author_part(authors_a) == author_part(authors_b),
        slug_part(title_a, TITLE_LEN as nat) == slug_part(title_b, TITLE_LEN as nat),
    ensures
        slug(authors_a, year, title_a) == slug(authors_b, year, title_b),
{
}

} // verus!
