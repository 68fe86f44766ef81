//! Splitting BibTeX text into entries.
//!
//! An entry begins at an `@` that stands outside any entry, whether or not a
//! backslash precedes it. Its kind is the identifier that follows, its key
//! runs from the first `{` to the first unescaped `,`, and its body runs from
//! there to the brace that closes the entry. A body that meets an unescaped
//! `@` before it is closed ends there: the text is taken to be damaged, and
//! the next entry begins at that `@`. An entry that cannot be delimited
//! before the text ends is dropped, and the scan goes on behind its `@`.

use vstd::prelude::*;
use crate::text::{
    find_char, find_char_at, from_chars, replace, replace_all, slice_of, text_pairs, to_chars,
    trim, trimmed, unicode_alphanumeric,
};

verus! {

/// Whether the character at position `i` follows a backslash.
pub open spec fn escaped(t: Seq<char>, i: int) -> bool {
    0 < i <= t.len() && t[i - 1] == '\\'
}

/// Whether `c` can stand in an identifier: a letter, a digit or `_`.
pub open spec fn ident_char(c: char) -> bool {
    unicode_alphanumeric(c) || c == '_'
}

/// The end of the identifier that begins at position `i`.
pub open spec fn ident_end(t: Seq<char>, i: int) -> int
    decreases t.len() - i,
{
    if 0 <= i < t.len() && ident_char(t[i]) {
        ident_end(t, i + 1)
    } else {
        i
    }
}

/// The first position at or after `i` that holds `c` with no backslash before
/// it, or the length of `t` where there is none.
pub open spec fn find_unescaped(t: Seq<char>, c: char, i: int) -> int
    decreases t.len() - i,
{
    if i < 0 || i >= t.len() {
        t.len() as int
    } else if t[i] == c && !escaped(t, i) {
        i
    } else {
        find_unescaped(t, c, i + 1)
    }
}

/// Where a scan of braced text stops that begins at position `j` inside
/// `depth` open braces: at the `}` that closes the outermost of them, or,
/// where `resync` is set, at an unescaped `@` met before that. The length of
/// `t` where the scan meets neither.
pub open spec fn brace_stop(t: Seq<char>, j: int, depth: int, resync: bool) -> int
    decreases t.len() - j,
{
    if j < 0 || j >= t.len() {
        t.len() as int
    } else if t[j] == '}' && depth <= 1 {
        j
    } else if resync && t[j] == '@' && !escaped(t, j) {
        j
    } else if t[j] == '{' {
        brace_stop(t, j + 1, depth + 1, resync)
    } else if t[j] == '}' {
        brace_stop(t, j + 1, depth - 1, resync)
    } else {
        brace_stop(t, j + 1, depth, resync)
    }
}

/// The positions that delimit one entry.
pub struct EntrySpan {
    /// Where the `@` stands.
    pub at: int,
    /// Where the kind ends.
    pub kind_end: int,
    /// Where the opening brace stands.
    pub brace: int,
    /// Where the comma after the key stands.
    pub comma: int,
    /// Where the body ends.
    pub stop: int,
}

impl EntrySpan {
    /// Whether the entry was closed by its brace, and not cut at an `@`.
    pub open spec fn closed(self, t: Seq<char>) -> bool {
        t[self.stop] == '}'
    }

    /// Where the scan goes on after the entry: behind the closing brace, or
    /// at the `@` that cut the entry.
    pub open spec fn next(self, t: Seq<char>) -> int {
        if self.closed(t) {
            self.stop + 1
        } else {
            self.stop
        }
    }
}

/// The entry that begins with the `@` at position `at`, where its key and its
/// body can be delimited.
pub open spec fn entry_at(t: Seq<char>, at: int) -> Option<EntrySpan> {
    let kind_end = ident_end(t, at + 1);
    let brace = find_char(t, '{', kind_end);
    let comma = find_unescaped(t, ',', brace + 1);
    let stop = brace_stop(t, comma + 1, 1, true);
    if brace < t.len() && comma < t.len() && stop < t.len() {
        Some(EntrySpan { at, kind_end, brace, comma, stop })
    } else {
        None
    }
}

/// What an entry holds before any of it is interpreted.
pub struct RawEntryView {
    pub kind_raw: Seq<char>,
    pub key_raw: Seq<char>,
    pub body: Seq<char>,
    pub block: Seq<char>,
}

/// The text of the entry that `span` delimits.
pub open spec fn raw_entry(t: Seq<char>, span: EntrySpan) -> RawEntryView {
    RawEntryView {
        kind_raw: t.subrange(span.at + 1, span.kind_end),
        key_raw: t.subrange(span.brace + 1, span.comma),
        body: t.subrange(span.comma + 1, span.stop),
        block: t.subrange(span.at, span.next(t)),
    }
}

/// The entries of `t` found from position `i` on, in order. An entry that
/// cannot be delimited before the text ends is dropped, and the scan goes on
/// at the position behind its `@`.
pub open spec fn entries_from(t: Seq<char>, i: int) -> Seq<RawEntryView>
    decreases t.len() - i,
{
    if i < 0 || i >= t.len() {
        Seq::empty()
    } else if t[i] == '@' {
        match entry_at(t, i) {
            Some(span) => if span.next(t) > i {
                seq![raw_entry(t, span)] + entries_from(t, span.next(t))
            } else {
                entries_from(t, i + 1)
            },
            None => entries_from(t, i + 1),
        }
    } else {
        entries_from(t, i + 1)
    }
}

/// The entries of a BibTeX text, in order.
pub open spec fn entries_of(t: Seq<char>) -> Seq<RawEntryView> {
    entries_from(t, 0)
}

/// One entry of a BibTeX text before any of it is interpreted.
#[derive(Clone, Debug, PartialEq, Eq)]
pub struct RawEntry {
    /// The kind as written, without the `@`.
    pub kind_raw: String,
    /// The key as written, between the opening brace and the first comma.
    pub key_raw: String,
    /// What stands between that comma and the end of the entry.
    pub body: String,
    /// The whole entry as it stands in the text, from its `@` on.
    pub block: String,
}

impl View for RawEntry {
    type V = RawEntryView;

    open spec fn view(&self) -> RawEntryView {
        RawEntryView {
            kind_raw: self.kind_raw@,
            key_raw: self.key_raw@,
            body: self.body@,
            block: self.block@,
        }
    }
}

/// The views of a sequence of entries.
pub open spec fn raw_entries(v: Seq<RawEntry>) -> Seq<RawEntryView> {
    Seq::new(v.len(), |i: int| v[i]@)
}

/// Whether the character at position `i` follows a backslash.
pub(crate) fn is_escaped(t: &Vec<char>, i: usize) -> (r: bool)
    requires
        i <= t.len(),
    ensures
        r == escaped(t@, i as int),
{
    i > 0 && t[i - 1] == '\\'
}

/// Whether `c` can stand in an identifier.
pub fn is_ident_char(c: char) -> (r: bool)
    ensures
        r == ident_char(c),
{
    c.is_alphanumeric() || c == '_'
}

/// The end of the identifier that begins at position `i`.
pub(crate) fn ident_end_at(t: &Vec<char>, i: usize) -> (j: usize)
    requires
        i <= t.len(),
    ensures
        j == ident_end(t@, i as int),
        i <= j <= t.len(),
        i < t.len() && ident_char(t@[i as int]) ==> i < j,
{
    let mut j: usize = i;
    while j < t.len() && is_ident_char(t[j])
        invariant
            i <= j <= t.len(),
            ident_end(t@, i as int) == ident_end(t@, j as int),
            i < t.len() && ident_char(t@[i as int]) && j == i ==> ident_char(t@[j as int]),
        decreases t.len() - j,
    {
        j += 1;
    }
    j
}

/// The first position at or after `i` that holds `c` unescaped.
pub(crate) fn find_unescaped_at(t: &Vec<char>, c: char, i: usize) -> (j: usize)
    requires
        i <= t.len(),
    ensures
        j == find_unescaped(t@, c, i as int),
        i <= j <= t.len(),
{
    let mut j: usize = i;
    while j < t.len() && !(t[j] == c && !is_escaped(t, j))
        invariant
            i <= j <= t.len(),
            find_unescaped(t@, c, i as int) == find_unescaped(t@, c, j as int),
        decreases t.len() - j,
    {
        j += 1;
    }
    j
}

/// Where the scan of braced text that begins at `start`, inside one open
/// brace, stops.
pub(crate) fn brace_stop_at(t: &Vec<char>, start: usize, resync: bool) -> (stop: usize)
    requires
        start <= t.len(),
    ensures
        stop == brace_stop(t@, start as int, 1, resync),
        start <= stop <= t.len(),
        stop < t.len() ==> t@[stop as int] == '}' || (resync && t@[stop as int] == '@'),
{
    let mut j: usize = start;
    let mut depth: u128 = 1;
    while j < t.len()
        invariant
            start <= j <= t.len(),
            1 <= depth <= j - start + 1,
            brace_stop(t@, start as int, 1, resync) == brace_stop(t@, j as int, depth as int, resync),
        decreases t.len() - j,
    {
        let c = t[j];
        if c == '}' && depth <= 1 {
            return j;
        }
        if resync && c == '@' && !is_escaped(t, j) {
            return j;
        }
        if c == '{' {
            depth += 1;
        } else if c == '}' {
            depth -= 1;
        }
        j += 1;
    }
    j
}

/// The positions of one entry, as the scan finds them.
pub struct Bounds {
    pub at: usize,
    pub kind_end: usize,
    pub brace: usize,
    pub comma: usize,
    pub stop: usize,
}

impl View for Bounds {
    type V = EntrySpan;

    open spec fn view(&self) -> EntrySpan {
        EntrySpan {
            at: self.at as int,
            kind_end: self.kind_end as int,
            brace: self.brace as int,
            comma: self.comma as int,
            stop: self.stop as int,
        }
    }
}

/// Delimits the entry that begins with the `@` at position `at`.
pub fn scan_entry(t: &Vec<char>, at: usize) -> (r: Option<Bounds>)
    ensures
        match r {
            Some(b) => entry_at(t@, at as int) == Some(b@) && at < b.kind_end <= b.brace < b.comma
                < b.stop < t.len(),
            None => entry_at(t@, at as int) is None,
        },
{
    if at >= t.len() {
        return None;
    }
    let kind_end = ident_end_at(t, at + 1);
    let brace = find_char_at(t, '{', kind_end);
    if brace >= t.len() {
        return None;
    }
    let comma = find_unescaped_at(t, ',', brace + 1);
    if comma >= t.len() {
        return None;
    }
    let stop = brace_stop_at(t, comma + 1, true);
    if stop >= t.len() {
        return None;
    }
    Some(Bounds { at, kind_end, brace, comma, stop })
}

/// The entries of a BibTeX text, in the order in which they stand in it.
pub fn split_entries(input: &str) -> (out: Vec<RawEntry>)
    ensures
        raw_entries(out@) == entries_of(input@),
{
    let t = to_chars(input);
    let mut out: Vec<RawEntry> = Vec::new();
    let mut i: usize = 0;
    while i < t.len()
        invariant
            i <= t.len(),
            t@ == input@,
            raw_entries(out@) + entries_from(t@, i as int) == entries_of(t@),
        decreases t.len() - i,
    {
        if t[i] == '@' {
            match scan_entry(&t, i) {
                Some(b) => {
                    let next: usize = if t[b.stop] == '}' {
                        b.stop + 1
                    } else {
                        b.stop
                    };
                    let entry = RawEntry {
                        kind_raw: from_chars(&slice_of(&t, b.at + 1, b.kind_end)),
                        key_raw: from_chars(&slice_of(&t, b.brace + 1, b.comma)),
                        body: from_chars(&slice_of(&t, b.comma + 1, b.stop)),
                        block: from_chars(&slice_of(&t, b.at, next)),
                    };
                    let ghost before = raw_entries(out@);
                    out.push(entry);
                    proof {
                        assert(entry@ == raw_entry(t@, b@));
                        assert(raw_entries(out@) =~= before + seq![raw_entry(t@, b@)]);
                        assert(raw_entries(out@) + entries_from(t@, next as int) =~= entries_of(
                            t@,
                        ));
                    }
                    i = next;
                },
                None => {
                    i += 1;
                },
            }
        } else {
            i += 1;
        }
    }
    assert(raw_entries(out@) =~= entries_of(t@));
    out
}

/// The key under which an entry is looked up among cited keys: the raw key
/// trimmed, with each `\_` read as `_`.
pub open spec fn lookup_key(key_raw: Seq<char>) -> Seq<char> {
    replace_all(trimmed(key_raw), "\\_"@, "_"@)
}

/// The pairs of lookup key and block of a sequence of entries.
pub open spec fn keyed_blocks(entries: Seq<RawEntryView>) -> Seq<(Seq<char>, Seq<char>)> {
    Seq::new(entries.len(), |i: int| (lookup_key(entries[i].key_raw), entries[i].block))
}

/// The key under which an entry is looked up among cited keys.
pub fn lookup_key_of(key_raw: &str) -> (key: String)
    ensures
        key@ == lookup_key(key_raw@),
{
    let t = trim(&to_chars(key_raw));
    from_chars(&replace(&t, &to_chars("\\_"), &to_chars("_")))
}

/// Each entry of a BibTeX text as its lookup key and its block: the text of
/// the entry from its `@` to its closing brace, or to the `@` that cut it.
pub fn parse_bib_entries(content: &str) -> (out: Vec<(String, String)>)
    ensures
        text_pairs(out@) == keyed_blocks(entries_of(content@)),
{
    let entries = split_entries(content);
    let mut out: Vec<(String, String)> = Vec::new();
    let mut i: usize = 0;
    while i < entries.len()
        invariant
            i <= entries.len(),
            raw_entries(entries@) == entries_of(content@),
            text_pairs(out@) == keyed_blocks(entries_of(content@)).take(i as int),
        decreases entries.len() - i,
    {
        let key = lookup_key_of(entries[i].key_raw.as_str());
        let block = entries[i].block.clone();
        let ghost before = text_pairs(out@);
        out.push((key, block));
        proof {
            assert(raw_entries(entries@)[i as int] == entries@[i as int]@);
            assert(text_pairs(out@) =~= before.push((key@, block@)));
        }
        i += 1;
        assert(text_pairs(out@) =~= keyed_blocks(entries_of(content@)).take(i as int));
    }
    assert(keyed_blocks(entries_of(content@)).take(entries.len() as int) =~= keyed_blocks(
        entries_of(content@),
    ));
    out
}

/// Whether position `p` holds an `@`.
pub open spec fn at_sign(t: Seq<char>, p: int) -> bool {
    0 <= p < t.len() && t[p] == '@'
}

/// Whether position `p` holds an `@` that no backslash precedes: the kind of
/// `@` that cuts a body.
pub open spec fn resync_point(t: Seq<char>, p: int) -> bool {
    at_sign(t, p) && !escaped(t, p)
}

/// How many `@` stand in `t` from position `i` on.
pub open spec fn count_at_signs(t: Seq<char>, i: int) -> nat
    decreases t.len() - i,
{
    if i < 0 || i >= t.len() {
        0
    } else if at_sign(t, i) {
        1 + count_at_signs(t, i + 1)
    } else {
        count_at_signs(t, i + 1)
    }
}

/// Where the entry that begins at position `p` ends: at its closing brace,
/// or where it is cut. Below zero where no entry can be delimited there.
pub open spec fn entry_stop(t: Seq<char>, p: int) -> int {
    match entry_at(t, p) {
        Some(span) => span.stop,
        None => -1,
    }
}

/// Whether every `@` of `t` begins an entry that is whole: the brace that
/// matches its opening brace closes it, and no other `@` stands in it.
pub open spec fn every_entry_closed(t: Seq<char>) -> bool {
    forall|p: int| #[trigger]
        at_sign(t, p) ==> match entry_at(t, p) {
            Some(span) => span.closed(t) && forall|q: int|
                p < q < span.stop ==> !#[trigger] at_sign(t, q),
            None => false,
        }
}

/// Whether the `@` at position `p` begins an entry that the brace matching
/// its opening brace closes.
pub open spec fn begins_whole_entry(t: Seq<char>, p: int) -> bool {
    at_sign(t, p) && match entry_at(t, p) {
        Some(span) => span.closed(t),
        None => false,
    }
}

/// Whether the entry that begins at `starts[k]` ends before the next of
/// `starts`.
pub open spec fn ends_before_next(t: Seq<char>, starts: Seq<int>, k: int) -> bool {
    entry_stop(t, starts[k]) < starts[k + 1]
}

/// Whether position `p` lies in the entry that begins at `starts[k]`.
pub open spec fn lies_in(t: Seq<char>, starts: Seq<int>, k: int, p: int) -> bool {
    0 <= k < starts.len() && starts[k] <= p <= entry_stop(t, starts[k])
}

/// Whether `starts` are the places of the whole entries that `t` is made
/// of: at each of them stands an `@` that begins an entry which its brace
/// closes, each entry ends before the next begins, and no `@` stands outside
/// these entries. Inside an entry an `@` may stand wherever the entry is
/// not cut by it.
pub open spec fn laid_out(t: Seq<char>, starts: Seq<int>) -> bool {
    &&& forall|k: int| 0 <= k < starts.len() ==> #[trigger] begins_whole_entry(t, starts[k])
    &&& forall|k: int| 0 <= k < starts.len() - 1 ==> #[trigger] ends_before_next(t, starts, k)
    &&& forall|p: int| #[trigger]
        at_sign(t, p) ==> exists|k: int| #[trigger] lies_in(t, starts, k, p)
}

/// The entries that begin at the places `starts`.
pub open spec fn entries_at(t: Seq<char>, starts: Seq<int>) -> Seq<RawEntryView> {
    Seq::new(starts.len(), |k: int| raw_entry(t, entry_at(t, starts[k])->0))
}

/// The identifier that begins at `i` ends at or after `i`.
proof fn lemma_ident_end_bounds(t: Seq<char>, i: int)
    requires
        0 <= i <= t.len(),
    ensures
        i <= ident_end(t, i) <= t.len(),
    decreases t.len() - i,
{
    if i < t.len() && ident_char(t[i]) {
        lemma_ident_end_bounds(t, i + 1);
    }
}

/// A search for an unescaped character ends at or after its start.
proof fn lemma_find_unescaped_bounds(t: Seq<char>, c: char, i: int)
    requires
        0 <= i <= t.len(),
    ensures
        i <= find_unescaped(t, c, i) <= t.len(),
    decreases t.len() - i,
{
    if i < t.len() && !(t[i] == c && !escaped(t, i)) {
        lemma_find_unescaped_bounds(t, c, i + 1);
    }
}

/// A search for a character ends at or after its start.
proof fn lemma_find_char_bounds(t: Seq<char>, c: char, i: int)
    requires
        0 <= i <= t.len(),
    ensures
        i <= find_char(t, c, i) <= t.len(),
    decreases t.len() - i,
{
    if i < t.len() && t[i] != c {
        lemma_find_char_bounds(t, c, i + 1);
    }
}

/// A stretch without `@` adds nothing to the count.
proof fn lemma_count_at_signs_skip(t: Seq<char>, a: int, b: int)
    requires
        0 <= a <= b <= t.len(),
        forall|k: int| a <= k < b ==> !at_sign(t, k),
    ensures
        count_at_signs(t, a) == count_at_signs(t, b),
    decreases b - a,
{
    if a < b {
        lemma_count_at_signs_skip(t, a + 1, b);
    }
}

/// The positions of an entry stand in order.
proof fn lemma_entry_at_order(t: Seq<char>, at: int)
    requires
        0 <= at < t.len(),
    ensures
        match entry_at(t, at) {
            Some(span) => at < span.kind_end <= span.brace < span.comma < span.stop < t.len()
                && span.at == at,
            None => true,
        },
{
    lemma_ident_end_bounds(t, at + 1);
    let kind_end = ident_end(t, at + 1);
    lemma_find_char_bounds(t, '{', kind_end);
    let brace = find_char(t, '{', kind_end);
    if brace < t.len() {
        lemma_find_unescaped_bounds(t, ',', brace + 1);
        let comma = find_unescaped(t, ',', brace + 1);
        if comma < t.len() {
            lemma_brace_stop_is_first_close(t, comma + 1, 1, true);
        }
    }
}

/// Where every entry is whole, as many entries are found from a position on
/// as `@` stand from there on.
proof fn lemma_entries_count_from(t: Seq<char>, i: int)
    requires
        every_entry_closed(t),
        0 <= i <= t.len(),
    ensures
        entries_from(t, i).len() == count_at_signs(t, i),
    decreases t.len() - i,
{
    if i < t.len() {
        if at_sign(t, i) {
            lemma_entry_at_order(t, i);
            let span = entry_at(t, i)->0;
            let next = span.next(t);
            assert(next == span.stop + 1);
            assert forall|k: int| i + 1 <= k < next implies !at_sign(t, k) by {}
            lemma_count_at_signs_skip(t, i + 1, next);
            lemma_entries_count_from(t, next);
        } else {
            lemma_entries_count_from(t, i + 1);
        }
    }
}

/// The splitter neither loses nor invents entries: in a text where every
/// `@` begins an entry that is whole, it finds as many entries as `@` stand
/// in the text.
pub proof fn lemma_entries_count(t: Seq<char>)
    requires
        every_entry_closed(t),
    ensures
        entries_of(t).len() == count_at_signs(t, 0),
{
    lemma_entries_count_from(t, 0);
}

/// Entries that are laid out stand in order: an earlier one ends before a
/// later one begins.
proof fn lemma_laid_out_ordered(t: Seq<char>, starts: Seq<int>, a: int, b: int)
    requires
        laid_out(t, starts),
        0 <= a < b < starts.len(),
    ensures
        starts[a] < entry_stop(t, starts[a]) < starts[b] < entry_stop(t, starts[b]),
    decreases b - a,
{
    assert(begins_whole_entry(t, starts[a]));
    assert(begins_whole_entry(t, starts[b]));
    lemma_entry_at_order(t, starts[a]);
    lemma_entry_at_order(t, starts[b]);
    assert(ends_before_next(t, starts, b - 1));
    if a + 1 < b {
        lemma_laid_out_ordered(t, starts, a, b - 1);
    }
}

/// An `@` that stands at or before the next entry that is laid out, and
/// behind the one before it, is the `@` of that next entry.
proof fn lemma_laid_out_next(t: Seq<char>, starts: Seq<int>, k: int, i: int)
    requires
        laid_out(t, starts),
        0 <= k <= starts.len(),
        at_sign(t, i),
        k < starts.len() ==> i <= starts[k],
        k > 0 ==> entry_stop(t, starts[k - 1]) < i,
    ensures
        k < starts.len(),
        i == starts[k],
        begins_whole_entry(t, i),
        k + 1 < starts.len() ==> entry_stop(t, i) < starts[k + 1],
{
    let found = choose|j: int| #[trigger] lies_in(t, starts, j, i);
    assert(lies_in(t, starts, found, i));
    if found < k {
        if found < k - 1 {
            lemma_laid_out_ordered(t, starts, found, k - 1);
        }
        assert(false);
    }
    if found > k {
        lemma_laid_out_ordered(t, starts, k, found);
        assert(false);
    }
    assert(begins_whole_entry(t, starts[k]));
    if k + 1 < starts.len() {
        assert(ends_before_next(t, starts, k));
    }
}

/// From a position between two entries that are laid out, the splitter
/// finds the entries that follow.
proof fn lemma_laid_out_from(t: Seq<char>, starts: Seq<int>, k: int, i: int)
    requires
        laid_out(t, starts),
        0 <= k <= starts.len(),
        0 <= i <= t.len(),
        k < starts.len() ==> i <= starts[k],
        k > 0 ==> entry_stop(t, starts[k - 1]) < i,
    ensures
        entries_from(t, i) == entries_at(t, starts).skip(k),
    decreases t.len() - i,
{
    let whole = entries_at(t, starts);
    if i < t.len() {
        if t[i] == '@' {
            lemma_laid_out_next(t, starts, k, i);
            lemma_entry_at_order(t, i);
            let span = entry_at(t, i)->0;
            let next = span.stop + 1;
            assert(span.next(t) == next);
            assert(entry_stop(t, starts[k]) == span.stop);
            lemma_laid_out_from(t, starts, k + 1, next);
            assert(entries_from(t, i) == seq![raw_entry(t, span)] + entries_from(t, next));
            assert(whole[k] == raw_entry(t, span));
            assert(whole.skip(k) =~= seq![whole[k]] + whole.skip(k + 1));
        } else {
            if k < starts.len() {
                assert(begins_whole_entry(t, starts[k]));
            }
            lemma_laid_out_from(t, starts, k, i + 1);
        }
    } else {
        if k < starts.len() {
            assert(begins_whole_entry(t, starts[k]));
        }
        assert(whole.skip(k) =~= Seq::<RawEntryView>::empty());
    }
}

/// The entries of a text that is made of whole entries are those entries,
/// in order, and nothing else; there are as many of them as places where one
/// begins.
pub proof fn lemma_entries_laid_out(t: Seq<char>, starts: Seq<int>)
    requires
        laid_out(t, starts),
    ensures
        entries_of(t) == entries_at(t, starts),
        entries_of(t).len() == starts.len(),
{
    if starts.len() > 0 {
        assert(begins_whole_entry(t, starts[0]));
    }
    lemma_laid_out_from(t, starts, 0, 0);
    assert(entries_at(t, starts).skip(0) =~= entries_at(t, starts));
}

/// By how much a character changes the depth of nesting.
pub open spec fn brace_delta(c: char) -> int {
    if c == '{' {
        1
    } else if c == '}' {
        -1
    } else {
        0
    }
}

/// By how much the depth of nesting changes from position `j` up to
/// position `k`: the opening braces there less the closing ones.
pub open spec fn net_depth(t: Seq<char>, j: int, k: int) -> int
    decreases k - j,
{
    if j < 0 || j >= k || k > t.len() {
        0
    } else {
        brace_delta(t[j]) + net_depth(t, j + 1, k)
    }
}

/// A scan of braced text that begins inside `depth` open braces stops at the
/// first closing brace that brings the depth to zero, unless it is cut
/// before: the depth is one at the brace where the scan stops, and above one
/// at every closing brace before it.
pub proof fn lemma_brace_stop_is_first_close(t: Seq<char>, j: int, depth: int, resync: bool)
    requires
        0 <= j <= t.len(),
        depth >= 1,
    ensures
        j <= brace_stop(t, j, depth, resync) <= t.len(),
        brace_stop(t, j, depth, resync) < t.len() ==> (t[brace_stop(t, j, depth, resync)] == '}'
            && depth + net_depth(t, j, brace_stop(t, j, depth, resync)) == 1) || (resync && resync_point(
            t,
            brace_stop(t, j, depth, resync),
        )),
        forall|k: int|
            j <= k < brace_stop(t, j, depth, resync) ==> depth + #[trigger] net_depth(t, j, k) >= 1
                && (t[k] == '}' ==> depth + net_depth(t, j, k) > 1) && !(resync && resync_point(t, k)),
    decreases t.len() - j,
{
    let s = brace_stop(t, j, depth, resync);
    if j < t.len() {
        if t[j] == '}' && depth <= 1 {
        } else if resync && t[j] == '@' && !escaped(t, j) {
        } else {
            let next = depth + brace_delta(t[j]);
            lemma_brace_stop_is_first_close(t, j + 1, next, resync);
            assert forall|k: int| j <= k < s implies depth + #[trigger] net_depth(t, j, k) >= 1 && (
            t[k] == '}' ==> depth + net_depth(t, j, k) > 1) && !(resync && resync_point(t, k)) by {
                if k > j {
                    assert(next + net_depth(t, j + 1, k) >= 1);
                }
            }
        }
    }
}

/// The body of an entry that its brace closes is balanced: it closes every
/// brace that it opens, and closes none before it is opened.
pub proof fn lemma_closed_entry_is_balanced(t: Seq<char>, at: int)
    requires
        0 <= at < t.len(),
        entry_at(t, at) is Some,
        entry_at(t, at)->0.closed(t),
    ensures
        net_depth(t, entry_at(t, at)->0.comma + 1, entry_at(t, at)->0.stop) == 0,
        forall|k: int|
            entry_at(t, at)->0.comma + 1 <= k < entry_at(t, at)->0.stop ==> #[trigger] net_depth(
                t,
                entry_at(t, at)->0.comma + 1,
                k,
            ) >= 0,
{
    lemma_entry_at_order(t, at);
    let span = entry_at(t, at)->0;
    lemma_brace_stop_is_first_close(t, span.comma + 1, 1, true);
}

} // verus!
