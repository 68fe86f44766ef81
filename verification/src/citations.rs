//! Finding the keys that a LaTeX text cites.
//!
//! A citation is a backslash, the word `cite`, any ASCII letters (`citep`,
//! `citet`, `citealp`, ...), an optional `*`, optional whitespace, and a list
//! of keys in braces. Braces inside the list are counted, so that a key may
//! hold braces of its own. The text is read once from left to right,
//! character by character.

use vstd::prelude::*;
use crate::entries::{
    brace_stop, brace_stop_at, lemma_brace_stop_is_first_close, lookup_key, net_depth,
};
use crate::text::{
    from_chars, matches_at, nonempty, occurs_at, replace, rows, same_text, slice_of, split,
    split_on, texts, to_chars, trim,
};

verus! {

/// Whether `c` is an ASCII letter.
pub open spec fn ascii_letter(c: char) -> bool {
    ('a' <= c && c <= 'z') || ('A' <= c && c <= 'Z')
}

/// Whether `c` is ASCII whitespace: space, tab, line feed, form feed or
/// carriage return.
pub open spec fn ascii_space(c: char) -> bool {
    c == ' ' || c == '\t' || c == '\n' || c == '\x0C' || c == '\r'
}

/// The first position at or after `i` that holds no ASCII letter.
pub open spec fn letters_end(t: Seq<char>, i: int) -> int
    decreases t.len() - i,
{
    if 0 <= i < t.len() && ascii_letter(t[i]) {
        letters_end(t, i + 1)
    } else {
        i
    }
}

/// The first position at or after `i` that holds no ASCII whitespace.
pub open spec fn spaces_end(t: Seq<char>, i: int) -> int
    decreases t.len() - i,
{
    if 0 <= i < t.len() && ascii_space(t[i]) {
        spaces_end(t, i + 1)
    } else {
        i
    }
}

/// Where the name of a citation command ends whose `\cite` ends before
/// position `i`: behind further letters, one `*` if there is one, and
/// whitespace.
pub open spec fn command_end(t: Seq<char>, i: int) -> int {
    let a = letters_end(t, i);
    let b = if 0 <= a < t.len() && t[a] == '*' {
        a + 1
    } else {
        a
    };
    spaces_end(t, b)
}

/// The keys in the inside of a key list: the pieces between commas, each
/// trimmed and with `\_` read as `_`, without the empty ones.
pub open spec fn keys_in(inside: Seq<char>) -> Seq<Seq<char>> {
    nonempty(split_on(inside, ","@).map_values(|p: Seq<char>| lookup_key(p)))
}

/// The keys cited in `t` from position `i` on, in the order in which they
/// stand, each as often as it is cited. A key list that is never closed
/// gives no key.
pub open spec fn cited_from(t: Seq<char>, i: int) -> Seq<Seq<char>>
    decreases t.len() - i,
{
    if i < 0 || i >= t.len() {
        Seq::empty()
    } else if occurs_at(t, "\\cite"@, i) {
        let open = command_end(t, i + "\\cite"@.len());
        if i < open < t.len() && t[open] == '{' {
            let close = brace_stop(t, open + 1, 1, false);
            if open < close < t.len() {
                keys_in(t.subrange(open + 1, close)) + cited_from(t, close + 1)
            } else {
                Seq::empty()
            }
        } else if i < open <= t.len() {
            cited_from(t, open)
        } else {
            Seq::empty()
        }
    } else {
        cited_from(t, i + 1)
    }
}

/// The keys cited in a LaTeX text, in the order in which they stand.
pub open spec fn cited_keys(t: Seq<char>) -> Seq<Seq<char>> {
    cited_from(t, 0)
}

/// Whether `c` is an ASCII letter.
pub fn is_ascii_letter(c: char) -> (r: bool)
    ensures
        r == ascii_letter(c),
{
    (c >= 'a' && c <= 'z') || (c >= 'A' && c <= 'Z')
}

/// Whether `c` is ASCII whitespace.
pub fn is_ascii_space(c: char) -> (r: bool)
    ensures
        r == ascii_space(c),
{
    c == ' ' || c == '\t' || c == '\n' || c == '\x0C' || c == '\r'
}

/// Where the name of a citation command ends.
pub(crate) fn command_end_at(t: &Vec<char>, i: usize) -> (j: usize)
    requires
        i <= t.len(),
    ensures
        j == command_end(t@, i as int),
        i <= j <= t.len(),
{
    let mut a: usize = i;
    while a < t.len() && is_ascii_letter(t[a])
        invariant
            i <= a <= t.len(),
            letters_end(t@, i as int) == letters_end(t@, a as int),
        decreases t.len() - a,
    {
        a += 1;
    }
    let mut b: usize = if a < t.len() && t[a] == '*' {
        a + 1
    } else {
        a
    };
    let ghost from = b;
    while b < t.len() && is_ascii_space(t[b])
        invariant
            from <= b <= t.len(),
            spaces_end(t@, from as int) == spaces_end(t@, b as int),
        decreases t.len() - b,
    {
        b += 1;
    }
    b
}

/// The keys in the inside of a key list.
pub fn keys_of_list(inside: &Vec<char>) -> (out: Vec<Vec<char>>)
    ensures
        rows(out@) == keys_in(inside@),
{
    let pieces = split(inside, &to_chars(","));
    let from = to_chars("\\_");
    let to = to_chars("_");
    let mut out: Vec<Vec<char>> = Vec::new();
    let mut i: usize = 0;
    let ghost cleaned = split_on(inside@, ","@).map_values(|p: Seq<char>| lookup_key(p));
    let ghost keep = |p: Seq<char>| p.len() > 0;
    proof {
        reveal(Seq::filter);
        assert(cleaned.take(0).filter(keep) =~= Seq::<Seq<char>>::empty());
    }
    while i < pieces.len()
        invariant
            i <= pieces.len(),
            from@ == "\\_"@,
            to@ == "_"@,
            rows(pieces@) == split_on(inside@, ","@),
            cleaned == split_on(inside@, ","@).map_values(|p: Seq<char>| lookup_key(p)),
            keep == (|p: Seq<char>| p.len() > 0),
            rows(out@) == cleaned.take(i as int).filter(keep),
        decreases pieces.len() - i,
    {
        let key = replace(&trim(&pieces[i]), &from, &to);
        proof {
            assert(rows(pieces@)[i as int] == pieces@[i as int]@);
            assert(cleaned.take(i + 1).drop_last() =~= cleaned.take(i as int));
            assert(cleaned.take(i + 1).last() == key@);
            reveal(Seq::filter);
        }
        if key.len() > 0 {
            let ghost before = rows(out@);
            out.push(key);
            assert(rows(out@) =~= before.push(key@));
        }
        i += 1;
    }
    assert(cleaned.take(pieces.len() as int) =~= cleaned);
    out
}

/// The keys cited in a LaTeX text, in the order in which they stand, each
/// as often as it is cited.
pub fn scan_citations(content: &str) -> (out: Vec<String>)
    ensures
        texts(out@) == cited_keys(content@),
{
    let t = to_chars(content);
    let cite = to_chars("\\cite");
    let mut out: Vec<String> = Vec::new();
    let mut i: usize = 0;
    proof {
        reveal_strlit("\\cite");
    }
    while i < t.len()
        invariant
            i <= t.len(),
            t@ == content@,
            cite@ == "\\cite"@,
            cite@.len() == 5,
            texts(out@) + cited_from(t@, i as int) == cited_keys(t@),
        decreases t.len() - i,
    {
        if matches_at(&t, &cite, i) {
            let open = command_end_at(&t, i + cite.len());
            if open < t.len() && t[open] == '{' {
                let close = brace_stop_at(&t, open + 1, false);
                if close >= t.len() {
                    assert(texts(out@) =~= cited_keys(t@));
                    return out;
                }
                let keys = keys_of_list(&slice_of(&t, open + 1, close));
                let mut k: usize = 0;
                let ghost before = texts(out@);
                while k < keys.len()
                    invariant
                        k <= keys.len(),
                        texts(out@) == before + rows(keys@).take(k as int),
                    decreases keys.len() - k,
                {
                    let s = from_chars(&keys[k]);
                    let ghost prior = texts(out@);
                    out.push(s);
                    assert(texts(out@) =~= prior.push(keys@[k as int]@));
                    k += 1;
                    assert(texts(out@) =~= before + rows(keys@).take(k as int));
                }
                assert(rows(keys@).take(keys.len() as int) =~= rows(keys@));
                i = close + 1;
                assert(texts(out@) + cited_from(t@, i as int) =~= cited_keys(t@));
            } else {
                i = open;
            }
        } else {
            i += 1;
        }
    }
    assert(texts(out@) =~= cited_keys(t@));
    out
}

/// A set of citation keys. Keys are compared character by character, and a
/// key that is added twice is held once.
#[derive(Debug)]
pub struct CitationSet {
    keys: Vec<String>,
}

impl View for CitationSet {
    type V = Set<Seq<char>>;

    closed spec fn view(&self) -> Set<Seq<char>> {
        texts(self.keys@).to_set()
    }
}

impl CitationSet {
    #[verifier::type_invariant]
    spec fn distinct(self) -> bool {
        texts(self.keys@).no_duplicates()
    }

    /// The empty set.
    pub fn new() -> (s: CitationSet)
        ensures
            s@ == Set::<Seq<char>>::empty(),
    {
        let s = CitationSet { keys: Vec::new() };
        assert(texts(s.keys@) =~= Seq::<Seq<char>>::empty());
        assert(s@ =~= Set::<Seq<char>>::empty());
        s
    }

    /// How many keys the set holds.
    pub fn len(&self) -> (n: usize)
        ensures
            n == self@.len(),
            self@.finite(),
    {
        proof {
            use_type_invariant(self);
            texts(self.keys@).unique_seq_to_set();
            vstd::seq_lib::seq_to_set_is_finite(texts(self.keys@));
        }
        self.keys.len()
    }

    /// Whether the set holds no key.
    pub fn is_empty(&self) -> (r: bool)
        ensures
            r == (self@.len() == 0),
            self@.finite(),
    {
        self.len() == 0
    }

    /// Whether `key` is in the set.
    pub fn contains(&self, key: &str) -> (r: bool)
        ensures
            r == self@.contains(key@),
    {
        let mut i: usize = 0;
        while i < self.keys.len()
            invariant
                i <= self.keys.len(),
                forall|j: int| 0 <= j < i ==> texts(self.keys@)[j] != key@,
            decreases self.keys.len() - i,
        {
            if same_text(self.keys[i].as_str(), key) {
                assert(texts(self.keys@)[i as int] == key@);
                return true;
            }
            i += 1;
        }
        false
    }

    /// Adds `key` to the set, and tells whether it was new.
    pub fn insert(&mut self, key: String) -> (fresh: bool)
        ensures
            final(self)@ == old(self)@.insert(key@),
            fresh == !old(self)@.contains(key@),
    {
        if self.contains(key.as_str()) {
            assert(self@.insert(key@) =~= self@);
            false
        } else {
            proof {
                use_type_invariant(&*self);
                texts(self.keys@).lemma_push_to_set_commute(key@);
            }
            let ghost before = texts(self.keys@);
            let mut held: Vec<String> = Vec::new();
            assert(texts(held@) =~= Seq::<Seq<char>>::empty());
            core::mem::swap(&mut held, &mut self.keys);
            held.push(key);
            assert(texts(held@) =~= before.push(key@));
            core::mem::swap(&mut held, &mut self.keys);
            true
        }
    }

    /// The keys of the set, each once.
    pub fn keys(&self) -> (out: Vec<String>)
        ensures
            texts(out@).to_set() == self@,
            texts(out@).no_duplicates(),
    {
        proof {
            use_type_invariant(self);
        }
        self.keys.clone()
    }
}

/// Adds the keys that a LaTeX text cites to `keys`.
pub fn extract_citations_from_tex(content: &str, keys: &mut CitationSet)
    ensures
        final(keys)@ == old(keys)@.union(cited_keys(content@).to_set()),
{
    let found = scan_citations(content);
    let mut i: usize = 0;
    proof {
        assert(texts(found@).take(0) =~= Seq::<Seq<char>>::empty());
        assert(texts(found@).take(0).to_set() =~= Set::<Seq<char>>::empty());
        assert(keys@ =~= old(keys)@.union(texts(found@).take(0).to_set()));
    }
    while i < found.len()
        invariant
            i <= found.len(),
            keys@ == old(keys)@.union(texts(found@).take(i as int).to_set()),
        decreases found.len() - i,
    {
        let key = found[i].clone();
        proof {
            let head = texts(found@).take(i as int);
            assert(texts(found@).take(i + 1) =~= head.push(key@));
            head.lemma_push_to_set_commute(key@);
            assert(old(keys)@.union(head.to_set()).insert(key@) =~= old(keys)@.union(
                head.push(key@).to_set(),
            ));
        }
        keys.insert(key);
        i += 1;
    }
    assert(texts(found@).take(found.len() as int) =~= texts(found@));
}

/// The keys in the inside of a key list are not empty.
pub proof fn lemma_keys_in_nonempty(inside: Seq<char>)
    ensures
        forall|k: int| 0 <= k < keys_in(inside).len() ==> (#[trigger] keys_in(inside)[k]).len() > 0,
{
    let cleaned = split_on(inside, ","@).map_values(|p: Seq<char>| lookup_key(p));
    let keep = |p: Seq<char>| p.len() > 0;
    assert forall|k: int| 0 <= k < keys_in(inside).len() implies (#[trigger] keys_in(
        inside,
    )[k]).len() > 0 by {
        cleaned.lemma_filter_pred(keep, k);
    }
}

/// No key that is found in a text is empty.
pub proof fn lemma_cited_keys_nonempty(t: Seq<char>, i: int)
    ensures
        forall|k: int|
            0 <= k < cited_from(t, i).len() ==> (#[trigger] cited_from(t, i)[k]).len() > 0,
    decreases t.len() - i,
{
    let found = cited_from(t, i);
    if 0 <= i < t.len() {
        if occurs_at(t, "\\cite"@, i) {
            let open = command_end(t, i + "\\cite"@.len());
            if i < open < t.len() && t[open] == '{' {
                let close = brace_stop(t, open + 1, 1, false);
                if open < close < t.len() {
                    let a = keys_in(t.subrange(open + 1, close));
                    let b = cited_from(t, close + 1);
                    lemma_keys_in_nonempty(t.subrange(open + 1, close));
                    lemma_cited_keys_nonempty(t, close + 1);
                    assert(found == a + b);
                    assert forall|k: int| 0 <= k < found.len() implies (#[trigger] found[k]).len()
                        > 0 by {
                        if k < a.len() {
                            assert(found[k] == a[k]);
                        } else {
                            assert(found[k] == b[k - a.len()]);
                        }
                    }
                } else {
                    assert(found.len() == 0);
                }
            } else if i < open <= t.len() {
                lemma_cited_keys_nonempty(t, open);
                assert(found == cited_from(t, open));
            } else {
                assert(found.len() == 0);
            }
        } else {
            lemma_cited_keys_nonempty(t, i + 1);
            assert(found == cited_from(t, i + 1));
        }
    } else {
        assert(found.len() == 0);
    }
}

/// The inside of a key list that is closed is balanced: the braces of a key
/// do not end the list.
pub proof fn lemma_key_list_is_balanced(t: Seq<char>, open: int)
    requires
        0 <= open < t.len(),
        brace_stop(t, open + 1, 1, false) < t.len(),
    ensures
        t[brace_stop(t, open + 1, 1, false)] == '}',
        net_depth(t, open + 1, brace_stop(t, open + 1, 1, false)) == 0,
        forall|k: int|
            open + 1 <= k < brace_stop(t, open + 1, 1, false) ==> #[trigger] net_depth(
                t,
                open + 1,
                k,
            ) >= 0,
{
    lemma_brace_stop_is_first_close(t, open + 1, 1, false);
}

} // verus!
