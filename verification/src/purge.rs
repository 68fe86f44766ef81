//! Keeping the entries of a BibTeX file that a document cites.

use vstd::prelude::*;
use crate::citations::CitationSet;
use crate::entries::{entries_of, keyed_blocks, parse_bib_entries};
use crate::text::{
    append, append_text, ends_with, from_chars, has_suffix, text_pairs, to_chars,
};

verus! {

/// What purging a BibTeX file gives: the text of the entries that are kept,
/// and how many entries were kept and removed.
#[derive(Clone, Debug, PartialEq, Eq)]
pub struct Purged {
    pub content: String,
    pub kept: usize,
    pub removed: usize,
}

/// A block as it is written to the purged file: the block, a line feed
/// unless it ends with one, and one more line feed.
pub open spec fn block_text(block: Seq<char>) -> Seq<char> {
    if block.len() > 0 && block.last() == '\n' {
        block + "\n"@
    } else {
        block + "\n"@ + "\n"@
    }
}

/// The text of the blocks whose key is cited, in order.
pub open spec fn kept_text(pairs: Seq<(Seq<char>, Seq<char>)>, cited: Set<Seq<char>>) -> Seq<char>
    decreases pairs.len(),
{
    if pairs.len() == 0 {
        Seq::empty()
    } else if cited.contains(pairs.last().0) {
        kept_text(pairs.drop_last(), cited) + block_text(pairs.last().1)
    } else {
        kept_text(pairs.drop_last(), cited)
    }
}

/// How many of the blocks have a key that is cited.
pub open spec fn kept_count(pairs: Seq<(Seq<char>, Seq<char>)>, cited: Set<Seq<char>>) -> nat
    decreases pairs.len(),
{
    if pairs.len() == 0 {
        0
    } else if cited.contains(pairs.last().0) {
        kept_count(pairs.drop_last(), cited) + 1
    } else {
        kept_count(pairs.drop_last(), cited)
    }
}

/// Keeps the entries of a BibTeX text whose key is among the cited keys.
/// Nothing of the text is changed but that: each entry that is kept is
/// written as it stands.
pub fn purge_bib(content: &str, cited: &CitationSet) -> (out: Purged)
    ensures
        out.content@ == kept_text(keyed_blocks(entries_of(content@)), cited@),
        out.kept == kept_count(keyed_blocks(entries_of(content@)), cited@),
        out.kept + out.removed == entries_of(content@).len(),
{
    let entries = parse_bib_entries(content);
    let mut text: Vec<char> = Vec::new();
    let mut kept: usize = 0;
    let mut removed: usize = 0;
    let mut i: usize = 0;
    let ghost pairs = keyed_blocks(entries_of(content@));
    assert(pairs.take(0) =~= Seq::empty());
    while i < entries.len()
        invariant
            i <= entries.len(),
            pairs == text_pairs(entries@),
            text@ == kept_text(pairs.take(i as int), cited@),
            kept == kept_count(pairs.take(i as int), cited@),
            kept + removed == i,
        decreases entries.len() - i,
    {
        proof {
            assert(pairs.take(i + 1).drop_last() =~= pairs.take(i as int));
            assert(pairs.take(i + 1).last() == (entries@[i as int].0@, entries@[i as int].1@));
        }
        if cited.contains(entries[i].0.as_str()) {
            let block = to_chars(entries[i].1.as_str());
            append(&mut text, &block);
            if !(block.len() > 0 && block[block.len() - 1] == '\n') {
                append_text(&mut text, "\n");
            }
            append_text(&mut text, "\n");
            kept += 1;
            assert(text@ =~= kept_text(pairs.take(i + 1), cited@));
        } else {
            removed += 1;
        }
        i += 1;
    }
    assert(pairs.take(entries.len() as int) =~= pairs);
    Purged { content: from_chars(&text), kept, removed }
}

/// The name of the file that the purged entries of `<stem>.bib` go to.
pub fn purged_file_name(stem: &str) -> (name: String)
    ensures
        name@ == stem@ + "_purged.bib"@,
{
    let mut out = to_chars(stem);
    append_text(&mut out, "_purged.bib");
    from_chars(&out)
}

/// Whether a file of this name holds purged entries, and is therefore not
/// purged again.
pub fn is_purged_file(name: &str) -> (r: bool)
    ensures
        r == ends_with(name@, "_purged.bib"@),
{
    has_suffix(&to_chars(name), &to_chars("_purged.bib"))
}

} // verus!
