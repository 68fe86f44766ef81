//! Text as sequences of characters.
//!
//! Every routine of the library reads and writes text through the functions
//! of this module. Their contracts are stated over `Seq<char>`, the view of
//! `str` and `String`.

use vstd::prelude::*;

verus! {

/// Whether `c` has the Unicode property `White_Space`.
pub uninterp spec fn unicode_whitespace(c: char) -> bool;

/// Whether `c` is alphabetic or numeric in the sense of Unicode.
pub uninterp spec fn unicode_alphanumeric(c: char) -> bool;

/// The lowercase form of a text under the Unicode case mapping.
pub uninterp spec fn unicode_lowercase(s: Seq<char>) -> Seq<char>;

/// `char::is_whitespace` tells whether its receiver has the property
/// `White_Space`; the contract only gives that answer a name.
pub assume_specification[ char::is_whitespace ](c: char) -> (r: bool)
    ensures
        r == unicode_whitespace(c),
;

/// `char::is_alphanumeric` tells whether its receiver is alphabetic or
/// numeric; the contract only gives that answer a name.
pub assume_specification[ char::is_alphanumeric ](c: char) -> (r: bool)
    ensures
        r == unicode_alphanumeric(c),
;

/// `str::to_lowercase` returns the lowercase equivalent of the slice as a new
/// `String`; the contract only gives that string a name.
pub assume_specification[ str::to_lowercase ](s: &str) -> (r: String)
    ensures
        r@ == unicode_lowercase(s@),
;

/// `String::push` appends the given character to the end of the string.
pub assume_specification[ String::push ](s: &mut String, c: char)
    ensures
        final(s)@ == old(s)@.push(c),
;

/// The views of a sequence of strings.
pub open spec fn texts(v: Seq<String>) -> Seq<Seq<char>> {
    Seq::new(v.len(), |i: int| v[i]@)
}

/// The view of an optional string.
pub open spec fn opt_text(o: Option<String>) -> Option<Seq<char>> {
    match o {
        Some(s) => Some(s@),
        None => None,
    }
}

/// The view of an optional string slice.
pub open spec fn opt_str(o: Option<&str>) -> Option<Seq<char>> {
    match o {
        Some(s) => Some(s@),
        None => None,
    }
}

/// The views of a sequence of pairs of strings.
pub open spec fn text_pairs(v: Seq<(String, String)>) -> Seq<(Seq<char>, Seq<char>)> {
    Seq::new(v.len(), |i: int| (v[i].0@, v[i].1@))
}

/// The views of a sequence of character vectors.
pub open spec fn rows(v: Seq<Vec<char>>) -> Seq<Seq<char>> {
    Seq::new(v.len(), |i: int| v[i]@)
}

/// `pat` stands in `s` at position `i`.
pub open spec fn occurs_at(s: Seq<char>, pat: Seq<char>, i: int) -> bool {
    &&& 0 <= i
    &&& i + pat.len() <= s.len()
    &&& s.subrange(i, i + pat.len()) == pat
}

/// `s` begins with `pat`.
pub open spec fn starts_with(s: Seq<char>, pat: Seq<char>) -> bool {
    occurs_at(s, pat, 0)
}

/// `s` ends with `pat`.
pub open spec fn ends_with(s: Seq<char>, pat: Seq<char>) -> bool {
    occurs_at(s, pat, s.len() - pat.len())
}

/// `pat` stands somewhere in `s`.
pub open spec fn contains_text(s: Seq<char>, pat: Seq<char>) -> bool {
    exists|i: int| occurs_at(s, pat, i)
}

/// The items of a list written with the separator `sep`: the pieces between
/// the separators, each trimmed, without the empty ones.
pub open spec fn items_in(s: Seq<char>, sep: Seq<char>) -> Seq<Seq<char>> {
    nonempty(split_on(s, sep).map_values(|p: Seq<char>| trimmed(p)))
}

/// The first position at or after `i` that holds `c`, or the length of `s`
/// where there is none.
pub open spec fn find_char(s: Seq<char>, c: char, i: int) -> int
    decreases s.len() - i,
{
    if i < 0 || i >= s.len() {
        s.len() as int
    } else if s[i] == c {
        i
    } else {
        find_char(s, c, i + 1)
    }
}

/// The first position at or after `i` that holds no whitespace, or the length
/// of `s` where there is none.
pub open spec fn skip_whitespace(s: Seq<char>, i: int) -> int
    decreases s.len() - i,
{
    if 0 <= i < s.len() && unicode_whitespace(s[i]) {
        skip_whitespace(s, i + 1)
    } else {
        i
    }
}

/// The end of `s` once the whitespace before position `j` is cut off, never
/// going below `lo`.
pub open spec fn drop_whitespace_before(s: Seq<char>, lo: int, j: int) -> int
    decreases j,
{
    if 0 <= lo < j <= s.len() && unicode_whitespace(s[j - 1]) {
        drop_whitespace_before(s, lo, j - 1)
    } else {
        j
    }
}

/// `s` without its leading and trailing whitespace.
pub open spec fn trimmed(s: Seq<char>) -> Seq<char> {
    let a = skip_whitespace(s, 0);
    let b = drop_whitespace_before(s, a, s.len() as int);
    s.subrange(a, b)
}

/// The pieces of `s` between the occurrences of `pat`, found from left to
/// right without overlap. `start` is where the piece at hand begins and `i`
/// the position examined next.
pub open spec fn split_from(s: Seq<char>, pat: Seq<char>, start: int, i: int) -> Seq<Seq<char>>
    decreases s.len() - i,
{
    if pat.len() == 0 || start < 0 || i < start || i + pat.len() > s.len() {
        seq![s.subrange(start, s.len() as int)]
    } else if occurs_at(s, pat, i) {
        seq![s.subrange(start, i)] + split_from(s, pat, i + pat.len(), i + pat.len())
    } else {
        split_from(s, pat, start, i + 1)
    }
}

/// The pieces of `s` between the occurrences of `pat`: one more piece than
/// there are occurrences, empty pieces included.
pub open spec fn split_on(s: Seq<char>, pat: Seq<char>) -> Seq<Seq<char>> {
    split_from(s, pat, 0, 0)
}

/// `s` from position `i` on with every occurrence of `pat` replaced by `to`.
pub open spec fn replace_from(s: Seq<char>, pat: Seq<char>, to: Seq<char>, i: int) -> Seq<char>
    decreases s.len() - i,
{
    if i < 0 || i >= s.len() {
        Seq::empty()
    } else if pat.len() > 0 && occurs_at(s, pat, i) {
        to + replace_from(s, pat, to, i + pat.len())
    } else {
        seq![s[i]] + replace_from(s, pat, to, i + 1)
    }
}

/// `s` with every occurrence of `pat`, found from left to right without
/// overlap, replaced by `to`.
pub open spec fn replace_all(s: Seq<char>, pat: Seq<char>, to: Seq<char>) -> Seq<char> {
    replace_from(s, pat, to, 0)
}

/// `s` with each occurrence of the character `from` replaced by `to`.
pub open spec fn replace_char(s: Seq<char>, from: char, to: char) -> Seq<char> {
    Seq::new(
        s.len(),
        |i: int|
            if s[i] == from {
                to
            } else {
                s[i]
            },
    )
}

/// The alphabetic and numeric characters of `s`, in order.
pub open spec fn alphanumerics(s: Seq<char>) -> Seq<char> {
    s.filter(|c: char| unicode_alphanumeric(c))
}

/// The first `n` items of `s`, or all of `s` where it has fewer.
pub open spec fn prefix_of<T>(s: Seq<T>, n: nat) -> Seq<T> {
    if s.len() <= n {
        s
    } else {
        s.take(n as int)
    }
}

/// The parts that are not empty, in order.
pub open spec fn nonempty(parts: Seq<Seq<char>>) -> Seq<Seq<char>> {
    parts.filter(|p: Seq<char>| p.len() > 0)
}

/// The parts in order with `sep` between each two neighbours.
pub open spec fn joined(parts: Seq<Seq<char>>, sep: Seq<char>) -> Seq<char>
    decreases parts.len(),
{
    if parts.len() == 0 {
        Seq::empty()
    } else if parts.len() == 1 {
        parts[0]
    } else {
        joined(parts.drop_last(), sep) + sep + parts.last()
    }
}

/// `s` from position `i` on, each run of whitespace replaced by one space.
pub open spec fn collapse_from(s: Seq<char>, i: int) -> Seq<char>
    decreases s.len() - i,
{
    if i < 0 || i >= s.len() {
        Seq::empty()
    } else if unicode_whitespace(s[i]) {
        if i > 0 && unicode_whitespace(s[i - 1]) {
            collapse_from(s, i + 1)
        } else {
            seq![' '] + collapse_from(s, i + 1)
        }
    } else {
        seq![s[i]] + collapse_from(s, i + 1)
    }
}

/// A field value in normal form: line feeds become spaces, each run of
/// whitespace becomes one space, and the whitespace at both ends is removed.
pub open spec fn normalized(s: Seq<char>) -> Seq<char> {
    trimmed(collapse_from(replace_char(s, '\n', ' '), 0))
}

/// `s` with `fill` appended until it is `width` long; `s` itself where it is
/// that long already.
pub open spec fn padded_right(s: Seq<char>, width: nat, fill: char) -> Seq<char> {
    if s.len() >= width {
        s
    } else {
        s + Seq::new((width - s.len()) as nat, |i: int| fill)
    }
}

/// `s` with `fill` put in front until it is `width` long; `s` itself where it
/// is that long already.
pub open spec fn padded_left(s: Seq<char>, width: nat, fill: char) -> Seq<char> {
    if s.len() >= width {
        s
    } else {
        Seq::new((width - s.len()) as nat, |i: int| fill) + s
    }
}

/// The characters of `s`, in order.
pub fn to_chars(s: &str) -> (v: Vec<char>)
    ensures
        v@ == s@,
{
    let mut v: Vec<char> = Vec::new();
    for c in it: s.chars()
        invariant
            v@ == it.seq().take(it.index() as int),
    {
        v.push(c);
    }
    v
}

/// The string made of the characters of `v`, in order.
pub fn from_chars(v: &Vec<char>) -> (s: String)
    ensures
        s@ == v@,
{
    let mut s = String::new();
    let mut i: usize = 0;
    while i < v.len()
        invariant
            i <= v.len(),
            s@ == v@.take(i as int),
        decreases v.len() - i,
    {
        s.push(v[i]);
        i += 1;
    }
    s
}

/// The strings made of each row of `v`.
pub fn from_rows(v: &Vec<Vec<char>>) -> (out: Vec<String>)
    ensures
        texts(out@) == rows(v@),
{
    let mut out: Vec<String> = Vec::new();
    let mut i: usize = 0;
    while i < v.len()
        invariant
            i <= v.len(),
            texts(out@) == rows(v@.take(i as int)),
        decreases v.len() - i,
    {
        let s = from_chars(&v[i]);
        let ghost before = texts(out@);
        out.push(s);
        assert(texts(out@) =~= before.push(v@[i as int]@));
        i += 1;
        assert(rows(v@.take(i as int)) =~= before.push(v@[i - 1]@));
    }
    assert(v@.take(v.len() as int) =~= v@);
    out
}

/// A copy of the characters of `v` from `a` up to `b`.
pub(crate) fn slice_of(v: &Vec<char>, a: usize, b: usize) -> (out: Vec<char>)
    requires
        a <= b <= v.len(),
    ensures
        out@ == v@.subrange(a as int, b as int),
{
    let mut out: Vec<char> = Vec::new();
    let mut i: usize = a;
    while i < b
        invariant
            a <= i <= b <= v.len(),
            out@ == v@.subrange(a as int, i as int),
        decreases b - i,
    {
        out.push(v[i]);
        i += 1;
    }
    out
}

/// Appends the characters of `src` to `dst`.
pub fn append(dst: &mut Vec<char>, src: &Vec<char>)
    ensures
        final(dst)@ == old(dst)@ + src@,
{
    let mut i: usize = 0;
    while i < src.len()
        invariant
            i <= src.len(),
            dst@ == old(dst)@ + src@.take(i as int),
        decreases src.len() - i,
    {
        dst.push(src[i]);
        i += 1;
    }
    assert(src@.take(src.len() as int) =~= src@);
}

/// Appends the characters of `lit` to `dst`.
pub fn append_text(dst: &mut Vec<char>, lit: &str)
    ensures
        final(dst)@ == old(dst)@ + lit@,
{
    let src = to_chars(lit);
    append(dst, &src);
}

/// The characters of each string of `v`.
pub fn to_rows(v: &Vec<String>) -> (out: Vec<Vec<char>>)
    ensures
        rows(out@) == texts(v@),
{
    let mut out: Vec<Vec<char>> = Vec::new();
    let mut i: usize = 0;
    assert(rows(out@) =~= texts(v@).take(0));
    while i < v.len()
        invariant
            i <= v.len(),
            rows(out@) == texts(v@).take(i as int),
        decreases v.len() - i,
    {
        let ghost before = rows(out@);
        let row = to_chars(v[i].as_str());
        out.push(row);
        assert(rows(out@) =~= before.push(v@[i as int]@));
        i += 1;
        assert(rows(out@) =~= texts(v@).take(i as int));
    }
    assert(texts(v@).take(v.len() as int) =~= texts(v@));
    out
}

/// Whether the two hold the same characters.
pub fn same_chars(a: &Vec<char>, b: &Vec<char>) -> (r: bool)
    ensures
        r == (a@ == b@),
{
    if a.len() != b.len() {
        return false;
    }
    let mut i: usize = 0;
    while i < a.len()
        invariant
            i <= a.len(),
            a.len() == b.len(),
            forall|j: int| 0 <= j < i ==> a@[j] == b@[j],
        decreases a.len() - i,
    {
        if a[i] != b[i] {
            return false;
        }
        i += 1;
    }
    assert(a@ =~= b@);
    true
}

/// Whether `v` holds the characters of `lit`.
pub fn text_is(v: &Vec<char>, lit: &str) -> (r: bool)
    ensures
        r == (v@ == lit@),
{
    let other = to_chars(lit);
    same_chars(v, &other)
}

/// Whether the two strings hold the same characters.
pub fn same_text(a: &str, b: &str) -> (r: bool)
    ensures
        r == (a@ == b@),
{
    let x = to_chars(a);
    let y = to_chars(b);
    same_chars(&x, &y)
}

/// Whether `pat` stands in `s` at position `i`.
pub fn matches_at(s: &Vec<char>, pat: &Vec<char>, i: usize) -> (r: bool)
    ensures
        r == occurs_at(s@, pat@, i as int),
{
    if pat.len() > s.len() || i > s.len() - pat.len() {
        return false;
    }
    let mut k: usize = 0;
    while k < pat.len()
        invariant
            k <= pat.len(),
            i + pat.len() <= s.len(),
            forall|j: int| 0 <= j < k ==> s@[i + j] == pat@[j],
        decreases pat.len() - k,
    {
        if s[i + k] != pat[k] {
            assert(s@.subrange(i as int, i + pat.len())[k as int] == s@[i + k]);
            return false;
        }
        k += 1;
    }
    assert(s@.subrange(i as int, i + pat.len()) =~= pat@);
    true
}

/// Whether `s` begins with `pat`.
pub fn has_prefix(s: &Vec<char>, pat: &Vec<char>) -> (r: bool)
    ensures
        r == starts_with(s@, pat@),
{
    matches_at(s, pat, 0)
}

/// Whether `s` ends with `pat`.
pub fn has_suffix(s: &Vec<char>, pat: &Vec<char>) -> (r: bool)
    ensures
        r == ends_with(s@, pat@),
{
    if pat.len() > s.len() {
        return false;
    }
    matches_at(s, pat, s.len() - pat.len())
}

/// Whether `pat` stands somewhere in `s`.
pub fn has_text(s: &Vec<char>, pat: &Vec<char>) -> (r: bool)
    ensures
        r == contains_text(s@, pat@),
{
    if pat.len() > s.len() {
        return false;
    }
    if pat.len() == 0 {
        assert(s@.subrange(0, 0) =~= pat@);
        assert(occurs_at(s@, pat@, 0));
        return true;
    }
    let mut i: usize = 0;
    while i <= s.len() - pat.len()
        invariant
            0 < pat.len() <= s.len(),
            i <= s.len() - pat.len() + 1,
            forall|j: int| 0 <= j < i ==> !occurs_at(s@, pat@, j),
        decreases s.len() - pat.len() + 1 - i,
    {
        if matches_at(s, pat, i) {
            return true;
        }
        i += 1;
    }
    false
}

/// The items of a list written with the separator `sep`.
pub fn split_items(s: &Vec<char>, sep: &Vec<char>) -> (out: Vec<Vec<char>>)
    ensures
        rows(out@) == items_in(s@, sep@),
{
    let pieces = split(s, sep);
    let mut out: Vec<Vec<char>> = Vec::new();
    let mut i: usize = 0;
    let ghost trimmed_all = split_on(s@, sep@).map_values(|p: Seq<char>| trimmed(p));
    let ghost keep = |p: Seq<char>| p.len() > 0;
    proof {
        reveal(Seq::filter);
        assert(trimmed_all.take(0).filter(keep) =~= Seq::<Seq<char>>::empty());
    }
    while i < pieces.len()
        invariant
            i <= pieces.len(),
            rows(pieces@) == split_on(s@, sep@),
            trimmed_all == split_on(s@, sep@).map_values(|p: Seq<char>| trimmed(p)),
            keep == (|p: Seq<char>| p.len() > 0),
            rows(out@) == trimmed_all.take(i as int).filter(keep),
        decreases pieces.len() - i,
    {
        let item = trim(&pieces[i]);
        proof {
            assert(rows(pieces@)[i as int] == pieces@[i as int]@);
            assert(trimmed_all.take(i + 1).drop_last() =~= trimmed_all.take(i as int));
            assert(trimmed_all.take(i + 1).last() == item@);
            reveal(Seq::filter);
        }
        if item.len() > 0 {
            let ghost before = rows(out@);
            out.push(item);
            assert(rows(out@) =~= before.push(item@));
        }
        i += 1;
    }
    assert(trimmed_all.take(pieces.len() as int) =~= trimmed_all);
    out
}

/// The first position at or after `i` that holds `c`, or the length of `s`.
pub(crate) fn find_char_at(s: &Vec<char>, c: char, i: usize) -> (j: usize)
    requires
        i <= s.len(),
    ensures
        j == find_char(s@, c, i as int),
        i <= j <= s.len(),
        forall|k: int| i <= k < j ==> s@[k] != c,
        j < s.len() ==> s@[j as int] == c,
{
    let mut j: usize = i;
    while j < s.len() && s[j] != c
        invariant
            i <= j <= s.len(),
            find_char(s@, c, i as int) == find_char(s@, c, j as int),
            forall|k: int| i <= k < j ==> s@[k] != c,
        decreases s.len() - j,
    {
        j += 1;
    }
    j
}

/// The first position at or after `i` that holds no whitespace.
pub(crate) fn skip_whitespace_at(s: &Vec<char>, i: usize) -> (j: usize)
    requires
        i <= s.len(),
    ensures
        j == skip_whitespace(s@, i as int),
        i <= j <= s.len(),
        forall|k: int| i <= k < j ==> unicode_whitespace(s@[k]),
        j < s.len() ==> !unicode_whitespace(s@[j as int]),
{
    let mut j: usize = i;
    while j < s.len() && s[j].is_whitespace()
        invariant
            i <= j <= s.len(),
            skip_whitespace(s@, i as int) == skip_whitespace(s@, j as int),
            forall|k: int| i <= k < j ==> unicode_whitespace(s@[k]),
        decreases s.len() - j,
    {
        j += 1;
    }
    j
}

/// `s` without its leading and trailing whitespace.
pub fn trim(s: &Vec<char>) -> (out: Vec<char>)
    ensures
        out@ == trimmed(s@),
{
    let a = skip_whitespace_at(s, 0);
    let mut b: usize = s.len();
    while b > a && s[b - 1].is_whitespace()
        invariant
            a <= b <= s.len(),
            drop_whitespace_before(s@, a as int, s.len() as int) == drop_whitespace_before(
                s@,
                a as int,
                b as int,
            ),
        decreases b,
    {
        b -= 1;
    }
    slice_of(s, a, b)
}

/// The pieces of `s` between the occurrences of `pat`.
pub fn split(s: &Vec<char>, pat: &Vec<char>) -> (out: Vec<Vec<char>>)
    ensures
        rows(out@) == split_on(s@, pat@),
{
    let mut out: Vec<Vec<char>> = Vec::new();
    let mut start: usize = 0;
    let mut i: usize = 0;
    if pat.len() == 0 {
        out.push(slice_of(s, 0, s.len()));
        assert(rows(out@) =~= split_on(s@, pat@));
        return out;
    }
    while i <= s.len() && pat.len() <= s.len() - i
        invariant
            pat.len() > 0,
            start <= i,
            start <= s.len(),
            rows(out@) + split_from(s@, pat@, start as int, i as int) == split_on(s@, pat@),
        decreases s.len() - i,
    {
        if matches_at(s, pat, i) {
            let piece = slice_of(s, start, i);
            let ghost before = rows(out@);
            out.push(piece);
            assert(rows(out@) =~= before + seq![s@.subrange(start as int, i as int)]);
            i = i + pat.len();
            start = i;
            assert(rows(out@) + split_from(s@, pat@, start as int, i as int) =~= split_on(
                s@,
                pat@,
            ));
        } else {
            i += 1;
        }
    }
    let ghost before = rows(out@);
    out.push(slice_of(s, start, s.len()));
    assert(rows(out@) =~= before + seq![s@.subrange(start as int, s.len() as int)]);
    out
}

/// `s` with every occurrence of `pat` replaced by `to`.
pub fn replace(s: &Vec<char>, pat: &Vec<char>, to: &Vec<char>) -> (out: Vec<char>)
    ensures
        out@ == replace_all(s@, pat@, to@),
{
    let mut out: Vec<char> = Vec::new();
    let mut i: usize = 0;
    while i < s.len()
        invariant
            i <= s.len(),
            out@ + replace_from(s@, pat@, to@, i as int) == replace_all(s@, pat@, to@),
        decreases s.len() - i,
    {
        if pat.len() > 0 && matches_at(s, pat, i) {
            append(&mut out, to);
            i = i + pat.len();
        } else {
            out.push(s[i]);
            i += 1;
        }
        assert(out@ + replace_from(s@, pat@, to@, i as int) =~= replace_all(s@, pat@, to@));
    }
    out
}

/// `s` with each occurrence of the character `from` replaced by `to`.
pub fn replace_each(s: &Vec<char>, from: char, to: char) -> (out: Vec<char>)
    ensures
        out@ == replace_char(s@, from, to),
{
    let mut out: Vec<char> = Vec::new();
    let mut i: usize = 0;
    while i < s.len()
        invariant
            i <= s.len(),
            out@ == replace_char(s@, from, to).take(i as int),
        decreases s.len() - i,
    {
        if s[i] == from {
            out.push(to);
        } else {
            out.push(s[i]);
        }
        i += 1;
        assert(out@ =~= replace_char(s@, from, to).take(i as int));
    }
    assert(replace_char(s@, from, to).take(s.len() as int) =~= replace_char(s@, from, to));
    out
}

/// The alphabetic and numeric characters of `s`, at most `limit` of them.
pub fn leading_alphanumerics(s: &Vec<char>, limit: usize) -> (out: Vec<char>)
    ensures
        out@ == prefix_of(alphanumerics(s@), limit as nat),
{
    let mut out: Vec<char> = Vec::new();
    let mut i: usize = 0;
    let ghost pred = |c: char| unicode_alphanumeric(c);
    proof {
        reveal(Seq::filter);
        assert(s@.take(0).filter(pred) =~= Seq::<char>::empty());
    }
    while i < s.len() && out.len() < limit
        invariant
            i <= s.len(),
            out.len() <= limit,
            pred == (|c: char| unicode_alphanumeric(c)),
            out@ == s@.take(i as int).filter(pred),
        decreases s.len() - i,
    {
        proof {
            assert(s@.take(i + 1).drop_last() =~= s@.take(i as int));
            reveal(Seq::filter);
        }
        if s[i].is_alphanumeric() {
            out.push(s[i]);
        }
        i += 1;
    }
    proof {
        let all = alphanumerics(s@);
        assert(s@ =~= s@.take(i as int) + s@.skip(i as int));
        Seq::filter_distributes_over_add(s@.take(i as int), s@.skip(i as int), pred);
        if i == s.len() {
            assert(s@.skip(i as int) =~= Seq::<char>::empty());
            reveal(Seq::filter);
            assert(s@.skip(i as int).filter(pred) =~= Seq::<char>::empty());
            assert(all =~= out@);
        } else {
            assert(out.len() == limit);
            assert(all.take(limit as int) =~= out@);
        }
    }
    out
}

/// The parts in order with `sep` between each two neighbours.
pub fn join(parts: &Vec<Vec<char>>, sep: &Vec<char>) -> (out: Vec<char>)
    ensures
        out@ == joined(rows(parts@), sep@),
{
    let mut out: Vec<char> = Vec::new();
    let mut i: usize = 0;
    while i < parts.len()
        invariant
            i <= parts.len(),
            out@ == joined(rows(parts@).take(i as int), sep@),
        decreases parts.len() - i,
    {
        proof {
            let next = rows(parts@).take(i + 1);
            assert(next.drop_last() =~= rows(parts@).take(i as int));
            assert(next.last() == parts@[i as int]@);
        }
        if i > 0 {
            append(&mut out, sep);
        }
        append(&mut out, &parts[i]);
        i += 1;
        assert(out@ =~= joined(rows(parts@).take(i as int), sep@));
    }
    assert(rows(parts@).take(parts.len() as int) =~= rows(parts@));
    out
}

/// A field value in normal form.
pub fn normalize(s: &Vec<char>) -> (out: Vec<char>)
    ensures
        out@ == normalized(s@),
{
    let flat = replace_each(s, '\n', ' ');
    let mut packed: Vec<char> = Vec::new();
    let mut i: usize = 0;
    let mut in_run = false;
    while i < flat.len()
        invariant
            i <= flat.len(),
            in_run == (i > 0 && unicode_whitespace(flat@[i - 1])),
            packed@ + collapse_from(flat@, i as int) == collapse_from(flat@, 0),
        decreases flat.len() - i,
    {
        let c = flat[i];
        if c.is_whitespace() {
            if !in_run {
                packed.push(' ');
            }
            in_run = true;
        } else {
            packed.push(c);
            in_run = false;
        }
        i += 1;
        assert(packed@ + collapse_from(flat@, i as int) =~= collapse_from(flat@, 0));
    }
    assert(packed@ =~= collapse_from(flat@, 0));
    trim(&packed)
}

/// `s` with `fill` appended until it is `width` long.
pub fn pad_right(s: &Vec<char>, width: usize, fill: char) -> (out: Vec<char>)
    ensures
        out@ == padded_right(s@, width as nat, fill),
{
    let mut out: Vec<char> = Vec::new();
    append(&mut out, s);
    while out.len() < width
        invariant
            s.len() <= out.len(),
            out.len() <= width || out.len() == s.len(),
            out@ == s@ + Seq::new((out.len() - s.len()) as nat, |i: int| fill),
        decreases width - out.len(),
    {
        out.push(fill);
        assert(out@ =~= s@ + Seq::new((out.len() - s.len()) as nat, |i: int| fill));
    }
    assert(out@ =~= padded_right(s@, width as nat, fill));
    out
}

/// `s` with `fill` put in front until it is `width` long.
pub fn pad_left(s: &Vec<char>, width: usize, fill: char) -> (out: Vec<char>)
    ensures
        out@ == padded_left(s@, width as nat, fill),
{
    let mut out: Vec<char> = Vec::new();
    let mut n: usize = s.len();
    while n < width
        invariant
            s.len() <= n,
            n <= width || n == s.len(),
            out@ == Seq::new((n - s.len()) as nat, |i: int| fill),
        decreases width - n,
    {
        out.push(fill);
        n += 1;
        assert(out@ =~= Seq::new((n - s.len()) as nat, |i: int| fill));
    }
    append(&mut out, s);
    assert(out@ =~= padded_left(s@, width as nat, fill));
    out
}

} // verus!
