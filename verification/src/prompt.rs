//! Reading what a user answered to a prompt.
//!
//! Nothing here reads or writes: each function takes the line that was
//! typed and says what it means.

use vstd::prelude::*;
use crate::bibtex::{names_in, split_names};
use crate::number::{char_to_digit, digits_value, parse_u16, parsed_u16};
use crate::reference::RefKind;
use crate::text::{
    from_chars, from_rows, items_in, joined, opt_str, opt_text, same_text, split_items, texts, to_chars,
    trim, trimmed, unicode_lowercase, join, to_rows,
};

verus! {

/// The kind that a name in lower case stands for.
pub open spec fn kind_named(name: Seq<char>) -> Option<RefKind> {
    if name == "article"@ {
        Some(RefKind::Article)
    } else if name == "inproceedings"@ {
        Some(RefKind::InProceedings)
    } else if name == "incollection"@ {
        Some(RefKind::InCollection)
    } else if name == "inbook"@ {
        Some(RefKind::InBook)
    } else if name == "book"@ {
        Some(RefKind::Book)
    } else if name == "misc"@ {
        Some(RefKind::Misc)
    } else {
        None
    }
}

/// The kind that an answer names, whatever its case; `fallback` where it
/// names none.
pub open spec fn kind_answered(answer: Seq<char>, fallback: RefKind) -> RefKind {
    match kind_named(unicode_lowercase(trimmed(answer))) {
        Some(k) => k,
        None => fallback,
    }
}

/// An answer without the whitespace around it; none where nothing else was
/// typed.
pub open spec fn answered(line: Seq<char>) -> Option<Seq<char>> {
    if trimmed(line).len() == 0 {
        None
    } else {
        Some(trimmed(line))
    }
}

/// Whether an answer in lower case says yes.
pub open spec fn says_yes(line: Seq<char>) -> bool {
    let v = unicode_lowercase(trimmed(line));
    v == "y"@ || v == "yes"@
}

/// Whether an answer in lower case says no.
pub open spec fn says_no(line: Seq<char>) -> bool {
    let v = unicode_lowercase(trimmed(line));
    v == "n"@ || v == "no"@
}

/// Whether an answer is empty or says yes.
pub open spec fn yes_or_empty(line: Seq<char>) -> bool {
    let v = unicode_lowercase(trimmed(line));
    v.len() == 0 || v == "y"@ || v == "yes"@
}

/// The choice among `max` numbered items that an answer makes, counted from
/// zero: the answer is a number from 1 to `max`.
pub open spec fn chosen(line: Seq<char>, max: nat) -> Option<nat> {
    let t = trimmed(line);
    let digits = if t.len() > 0 && t[0] == '+' {
        t.subrange(1, t.len() as int)
    } else {
        t
    };
    match digits_value(digits) {
        Some(v) => if 1 <= v <= max {
            Some((v - 1) as nat)
        } else {
            None
        },
        None => None,
    }
}

/// The kind that an answer names, or `fallback`.
pub fn kind_or(answer: &str, fallback: RefKind) -> (kind: RefKind)
    ensures
        kind == kind_answered(answer@, fallback),
{
    let t = from_chars(&trim(&to_chars(answer)));
    let lower = t.as_str().to_lowercase();
    let k = lower.as_str();
    if same_text(k, "article") {
        RefKind::Article
    } else if same_text(k, "inproceedings") {
        RefKind::InProceedings
    } else if same_text(k, "incollection") {
        RefKind::InCollection
    } else if same_text(k, "inbook") {
        RefKind::InBook
    } else if same_text(k, "book") {
        RefKind::Book
    } else if same_text(k, "misc") {
        RefKind::Misc
    } else {
        fallback
    }
}

/// An answer without the whitespace around it; none where nothing else was
/// typed.
pub fn answer(line: &str) -> (r: Option<String>)
    ensures
        opt_text(r) == answered(line@),
{
    let t = trim(&to_chars(line));
    if t.len() == 0 {
        None
    } else {
        Some(from_chars(&t))
    }
}

/// The text after a prompt that shows the current text: the answer, or the
/// current text where nothing was typed.
pub fn edited_text(line: &str, current: &str) -> (r: String)
    ensures
        r@ == match answered(line@) {
            Some(a) => a,
            None => current@,
        },
{
    match answer(line) {
        Some(a) => a,
        None => current.to_owned(),
    }
}

/// The optional text after a prompt that shows the current one.
pub fn edited_optional(line: &str, current: Option<&str>) -> (r: Option<String>)
    ensures
        opt_text(r) == match answered(line@) {
            Some(a) => Some(a),
            None => opt_str(current),
        },
{
    match answer(line) {
        Some(a) => Some(a),
        None => match current {
            Some(c) => Some(c.to_owned()),
            None => None,
        },
    }
}

/// The year after a prompt that shows the current one: the current year
/// where nothing was typed, and otherwise the number typed, or none where
/// the answer is no number.
pub fn edited_year(line: &str, current: Option<u16>) -> (r: Option<u16>)
    ensures
        r == match answered(line@) {
            Some(a) => parsed_u16(a),
            None => current,
        },
{
    let t = trim(&to_chars(line));
    if t.len() == 0 {
        current
    } else {
        parse_u16(&t)
    }
}

/// The list of names after a prompt that shows the current names joined by
/// ` and `.
pub fn edited_list(line: &str, current: &Vec<String>) -> (r: Vec<String>)
    ensures
        texts(r@) == names_in(
            match answered(line@) {
                Some(a) => a,
                None => joined(texts(current@), " and "@),
            },
        ),
{
    let shown = from_chars(&join(&to_rows(current), &to_chars(" and ")));
    let raw = edited_text(line, shown.as_str());
    split_names(raw.as_str())
}

/// The tags in an answer: the pieces between commas, trimmed, without the
/// empty ones.
pub fn split_tags(line: &str) -> (r: Vec<String>)
    ensures
        texts(r@) == items_in(line@, ","@),
{
    from_rows(&split_items(&to_chars(line), &to_chars(",")))
}

fn lowered(line: &str) -> (r: String)
    ensures
        r@ == unicode_lowercase(trimmed(line@)),
{
    let t = from_chars(&trim(&to_chars(line)));
    t.as_str().to_lowercase()
}

/// Whether the answer to a question that is denied by default says yes.
pub fn confirmed(line: &str) -> (r: bool)
    ensures
        r == says_yes(line@),
{
    let v = lowered(line);
    same_text(v.as_str(), "y") || same_text(v.as_str(), "yes")
}

/// Whether the answer to a question that is granted by default grants it:
/// it is empty or says yes.
pub fn confirmed_by_default(line: &str) -> (r: bool)
    ensures
        r == yes_or_empty(line@),
{
    let v = lowered(line);
    let empty = to_chars(v.as_str()).len() == 0;
    empty || same_text(v.as_str(), "y") || same_text(v.as_str(), "yes")
}

/// Whether the answer to a question that is granted by default denies it.
pub fn declined(line: &str) -> (r: bool)
    ensures
        r == says_no(line@),
{
    let v = lowered(line);
    same_text(v.as_str(), "n") || same_text(v.as_str(), "no")
}

/// The choice among `max` numbered items that an answer makes, counted from
/// zero.
pub fn chosen_index(line: &str, max: usize) -> (r: Option<usize>)
    ensures
        match r {
            Some(i) => chosen(line@, max as nat) == Some(i as nat) && i < max,
            None => chosen(line@, max as nat) is None,
        },
{
    let t = trim(&to_chars(line));
    let first: usize = if t.len() > 0 && t[0] == '+' {
        1
    } else {
        0
    };
    if first == t.len() {
        assert(t@.subrange(first as int, t.len() as int).len() == 0);
        return None;
    }
    let ghost digits = t@.subrange(first as int, t.len() as int);
    let cap: u128 = max as u128 + 1;
    let mut acc: u128 = 0;
    let mut i: usize = first;
    while i < t.len()
        invariant
            first <= i <= t.len(),
            first < t.len(),
            first == 1 <==> t@[0] == '+',
            first <= 1,
            t@ == trimmed(line@),
            digits == t@.subrange(first as int, t.len() as int),
            cap == max + 1,
            acc <= cap,
            i > first ==> match digits_value(digits.take(i - first)) {
                Some(v) => acc == if v <= max {
                    v
                } else {
                    cap as nat
                },
                None => false,
            },
            i == first ==> acc == 0,
        decreases t.len() - i,
    {
        proof {
            assert(digits.take(i + 1 - first).drop_last() =~= digits.take(i - first));
            assert(digits.take(i + 1 - first).last() == t@[i as int]);
        }
        match char_to_digit(t[i]) {
            None => {
                proof {
                    assert(digits_value(digits.take(i + 1 - first)) is None);
                    crate::number::lemma_digits_value_prefix(digits, i + 1 - first);
                    assert(first == 0 ==> digits =~= t@);
                }
                return None;
            },
            Some(d) => {
                let next: u128 = acc * 10 + d as u128;
                acc = if next > max as u128 {
                    cap
                } else {
                    next
                };
            },
        }
        i += 1;
    }
    proof {
        assert(digits.take(t.len() - first) =~= digits);
        assert(first == 0 ==> digits =~= t@);
    }
    if 1 <= acc && acc <= max as u128 {
        Some((acc - 1) as usize)
    } else {
        None
    }
}

} // verus!
