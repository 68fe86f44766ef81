//! Turning the entries of a BibTeX text into records.

use vstd::prelude::*;
use crate::entries::{entries_of, raw_entries, split_entries, RawEntryView};
use crate::fields::{extract_fields, field_pairs, fields_of, Field};
use crate::number::{parse_u16, parsed_u16};
use crate::reference::{
    records, Identifiers, IdentifiersView, RefKind, Reference, ReferenceView, Venue, VenueView,
};
use crate::text::{
    from_chars, from_rows, items_in, join, joined, opt_text, replace_char, replace_each, rows,
    same_text, skip_whitespace, skip_whitespace_at, slice_of, split, split_items, split_on,
    text_is, texts, to_chars, trim, trimmed, unicode_lowercase,
};

verus! {

/// The names in the value of an `author` or `editor` field: the pieces
/// between the occurrences of ` and `, each trimmed, without the empty ones.
pub open spec fn names_in(s: Seq<char>) -> Seq<Seq<char>> {
    items_in(s, " and "@)
}

/// The kind that the raw kind of an entry names, whatever its case. A kind
/// that is none of the known ones is `Misc`.
pub open spec fn kind_of(kind_raw: Seq<char>) -> RefKind {
    let k = unicode_lowercase(kind_raw);
    if k == "article"@ {
        RefKind::Article
    } else if k == "inproceedings"@ {
        RefKind::InProceedings
    } else if k == "incollection"@ {
        RefKind::InCollection
    } else if k == "inbook"@ {
        RefKind::InBook
    } else if k == "book"@ {
        RefKind::Book
    } else {
        RefKind::Misc
    }
}

/// The key of an entry as it names a record: the raw key trimmed, with `/`
/// and `:` replaced by `_`, so that it can serve as a file name.
pub open spec fn working_key(key_raw: Seq<char>) -> Seq<char> {
    replace_char(replace_char(trimmed(key_raw), '/', '_'), ':', '_')
}

/// What has been gathered from the fields of an entry.
pub struct DraftView {
    pub title: Option<Seq<char>>,
    pub authors: Seq<Seq<char>>,
    pub editors: Seq<Seq<char>>,
    pub year: Option<u16>,
    pub identifiers: IdentifiersView,
    pub venue: VenueView,
}

impl DraftView {
    /// Nothing gathered yet.
    pub open spec fn blank() -> DraftView {
        DraftView {
            title: None,
            authors: Seq::empty(),
            editors: Seq::empty(),
            year: None,
            identifiers: IdentifiersView::none(),
            venue: VenueView::none(),
        }
    }
}

/// The draft once the field `name` with value `value` is taken in. A field
/// of an unknown name changes nothing, and neither does a `year` that is no
/// number.
pub open spec fn apply_field(d: DraftView, name: Seq<char>, value: Seq<char>) -> DraftView {
    if name == "title"@ {
        DraftView { title: Some(value), ..d }
    } else if name == "author"@ {
        DraftView { authors: names_in(value), ..d }
    } else if name == "editor"@ {
        DraftView { editors: names_in(value), ..d }
    } else if name == "year"@ {
        match parsed_u16(value) {
            Some(y) => DraftView { year: Some(y), ..d },
            None => d,
        }
    } else if name == "doi"@ {
        DraftView { identifiers: IdentifiersView { doi: Some(value), ..d.identifiers }, ..d }
    } else if name == "isbn"@ {
        DraftView { identifiers: IdentifiersView { isbn: Some(value), ..d.identifiers }, ..d }
    } else if name == "url"@ {
        DraftView { identifiers: IdentifiersView { url: Some(value), ..d.identifiers }, ..d }
    } else if name == "journal"@ {
        DraftView { venue: VenueView { journal: Some(value), ..d.venue }, ..d }
    } else if name == "booktitle"@ {
        DraftView { venue: VenueView { booktitle: Some(value), ..d.venue }, ..d }
    } else if name == "publisher"@ {
        DraftView { venue: VenueView { publisher: Some(value), ..d.venue }, ..d }
    } else if name == "series"@ {
        DraftView { venue: VenueView { series: Some(value), ..d.venue }, ..d }
    } else if name == "volume"@ {
        DraftView { venue: VenueView { volume: Some(value), ..d.venue }, ..d }
    } else if name == "number"@ {
        DraftView { venue: VenueView { issue: Some(value), ..d.venue }, ..d }
    } else if name == "pages"@ {
        DraftView { venue: VenueView { pages: Some(value), ..d.venue }, ..d }
    } else if name == "address"@ || name == "location"@ {
        DraftView { venue: VenueView { address: Some(value), ..d.venue }, ..d }
    } else {
        d
    }
}

/// The draft once all the fields are taken in, in order; where a name occurs
/// twice, the later field wins.
pub open spec fn drafted(fields: Seq<(Seq<char>, Seq<char>)>) -> DraftView
    decreases fields.len(),
{
    if fields.len() == 0 {
        DraftView::blank()
    } else {
        apply_field(drafted(fields.drop_last()), fields.last().0, fields.last().1)
    }
}

/// The record that an entry maps to, or the key under which the entry is
/// rejected because it has no `title` field. The identifier of the record is
/// the working key of the entry; it has no stable identifier yet.
pub open spec fn mapped(
    kind_raw: Seq<char>,
    key_raw: Seq<char>,
    fields: Seq<(Seq<char>, Seq<char>)>,
) -> Result<ReferenceView, Seq<char>> {
    let d = drafted(fields);
    match d.title {
        None => Err(working_key(key_raw)),
        Some(title) => Ok(
            ReferenceView {
                id: working_key(key_raw),
                sid: Seq::empty(),
                kind: kind_of(kind_raw),
                title,
                authors: d.authors,
                editors: d.editors,
                year: d.year,
                identifiers: d.identifiers,
                venue: Some(d.venue),
                tags: Seq::empty(),
                notes: None,
                attachments: Seq::empty(),
            },
        ),
    }
}

/// What one entry of a text comes to.
pub open spec fn outcome(e: RawEntryView) -> Result<ReferenceView, Seq<char>> {
    mapped(e.kind_raw, e.key_raw, fields_of(e.body))
}

/// The records of the entries that are accepted, in order.
pub open spec fn accepted(entries: Seq<RawEntryView>) -> Seq<ReferenceView>
    decreases entries.len(),
{
    if entries.len() == 0 {
        Seq::empty()
    } else {
        let rest = accepted(entries.drop_last());
        match outcome(entries.last()) {
            Ok(r) => rest.push(r),
            Err(_) => rest,
        }
    }
}

/// The keys of the entries that are rejected, in order.
pub open spec fn rejected(entries: Seq<RawEntryView>) -> Seq<Seq<char>>
    decreases entries.len(),
{
    if entries.len() == 0 {
        Seq::empty()
    } else {
        let rest = rejected(entries.drop_last());
        match outcome(entries.last()) {
            Ok(_) => rest,
            Err(key) => rest.push(key),
        }
    }
}

/// What importing a BibTeX text gives: the records of the entries that were
/// accepted, and the keys of those that were rejected for want of a title.
#[derive(Clone, Debug, PartialEq, Eq)]
pub struct BibtexImport {
    pub records: Vec<Reference>,
    pub rejected: Vec<String>,
}

/// The names in the value of an `author` or `editor` field.
pub fn split_names(s: &str) -> (out: Vec<String>)
    ensures
        texts(out@) == names_in(s@),
{
    let items = split_items(&to_chars(s), &to_chars(" and "));
    from_rows(&items)
}

/// The kind that the raw kind of an entry names.
pub fn kind_from(kind_raw: &str) -> (kind: RefKind)
    ensures
        kind == kind_of(kind_raw@),
{
    let lower = kind_raw.to_lowercase();
    let k = lower.as_str();
    if same_text(k, "article") {
        RefKind::Article
    } else if same_text(k, "inproceedings") {
        RefKind::InProceedings
    } else if same_text(k, "incollection") {
        RefKind::InCollection
    } else if same_text(k, "inbook") {
        RefKind::InBook
    } else if same_text(k, "book") {
        RefKind::Book
    } else {
        RefKind::Misc
    }
}

/// The key of an entry as it names a record.
pub fn working_key_of(key_raw: &str) -> (key: String)
    ensures
        key@ == working_key(key_raw@),
{
    let t = trim(&to_chars(key_raw));
    let a = replace_each(&t, '/', '_');
    from_chars(&replace_each(&a, ':', '_'))
}

/// What has been gathered from the fields of an entry so far.
#[derive(Clone, Debug, PartialEq, Eq)]
pub struct Draft {
    pub title: Option<String>,
    pub authors: Vec<String>,
    pub editors: Vec<String>,
    pub year: Option<u16>,
    pub identifiers: Identifiers,
    pub venue: Venue,
}

impl View for Draft {
    type V = DraftView;

    open spec fn view(&self) -> DraftView {
        DraftView {
            title: opt_text(self.title),
            authors: texts(self.authors@),
            editors: texts(self.editors@),
            year: self.year,
            identifiers: self.identifiers@,
            venue: self.venue@,
        }
    }
}

/// A draft that holds nothing yet.
pub fn blank_draft() -> (d: Draft)
    ensures
        d@ == DraftView::blank(),
{
    let d = Draft {
        title: None,
        authors: Vec::new(),
        editors: Vec::new(),
        year: None,
        identifiers: Identifiers::default(),
        venue: Venue::empty(),
    };
    assert(d@.authors =~= Seq::empty());
    assert(d@.editors =~= Seq::empty());
    d
}

/// Takes one field into the draft.
pub fn take_in(d: &mut Draft, field: &Field)
    ensures
        final(d)@ == apply_field(old(d)@, field@.0, field@.1),
{
    let name = field.name.as_str();
    let value = field.value.clone();
    if same_text(name, "title") {
        d.title = Some(value);
    } else if same_text(name, "author") {
        d.authors = split_names(value.as_str());
    } else if same_text(name, "editor") {
        d.editors = split_names(value.as_str());
    } else if same_text(name, "year") {
        match parse_u16(&to_chars(value.as_str())) {
            Some(y) => {
                d.year = Some(y);
            },
            None => {},
        }
    } else if same_text(name, "doi") {
        d.identifiers.doi = Some(value);
    } else if same_text(name, "isbn") {
        d.identifiers.isbn = Some(value);
    } else if same_text(name, "url") {
        d.identifiers.url = Some(value);
    } else if same_text(name, "journal") {
        d.venue.journal = Some(value);
    } else if same_text(name, "booktitle") {
        d.venue.booktitle = Some(value);
    } else if same_text(name, "publisher") {
        d.venue.publisher = Some(value);
    } else if same_text(name, "series") {
        d.venue.series = Some(value);
    } else if same_text(name, "volume") {
        d.venue.volume = Some(value);
    } else if same_text(name, "number") {
        d.venue.issue = Some(value);
    } else if same_text(name, "pages") {
        d.venue.pages = Some(value);
    } else if same_text(name, "address") || same_text(name, "location") {
        d.venue.address = Some(value);
    }
}

/// Maps one entry onto a record, which is named by the working key of the
/// entry. An entry without a `title` field is rejected, and the error is the
/// working key under which to report it.
pub fn map_entry(kind_raw: &str, key_raw: &str, fields: &Vec<Field>) -> (r: Result<
    Reference,
    String,
>)
    ensures
        match r {
            Ok(rec) => mapped(kind_raw@, key_raw@, field_pairs(fields@)) == Ok::<
                ReferenceView,
                Seq<char>,
            >(rec@),
            Err(key) => mapped(kind_raw@, key_raw@, field_pairs(fields@)) == Err::<
                ReferenceView,
                Seq<char>,
            >(key@),
        },
{
    let mut d = blank_draft();
    let mut i: usize = 0;
    while i < fields.len()
        invariant
            i <= fields.len(),
            d@ == drafted(field_pairs(fields@).take(i as int)),
        decreases fields.len() - i,
    {
        proof {
            let next = field_pairs(fields@).take(i + 1);
            assert(next.drop_last() =~= field_pairs(fields@).take(i as int));
            assert(next.last() == fields@[i as int]@);
        }
        take_in(&mut d, &fields[i]);
        i += 1;
    }
    assert(field_pairs(fields@).take(fields.len() as int) =~= field_pairs(fields@));
    match d.title {
        None => Err(working_key_of(key_raw)),
        Some(title) => {
            let id = working_key_of(key_raw);
            let rec = Reference {
                id,
                sid: String::new(),
                kind: kind_from(kind_raw),
                title,
                authors: d.authors,
                editors: d.editors,
                year: d.year,
                identifiers: d.identifiers,
                venue: Some(d.venue),
                tags: Vec::new(),
                notes: None,
                attachments: Vec::new(),
            };
            proof {
                assert(rec@.tags =~= Seq::empty());
                assert(rec@.attachments =~= Seq::empty());
            }
            Ok(rec)
        },
    }
}

/// Reads a BibTeX text: splits it into entries, reads the fields of each and
/// maps each entry onto a record, which is named by the key of its entry. An
/// entry without a title gives no record; its key is reported among the
/// rejected. The rest of the text is read all the same.
pub fn parse_bibtex(input: &str) -> (out: BibtexImport)
    ensures
        records(out.records@) == accepted(entries_of(input@)),
        texts(out.rejected@) == rejected(entries_of(input@)),
{
    let entries = split_entries(input);
    let mut recs: Vec<Reference> = Vec::new();
    let mut bad: Vec<String> = Vec::new();
    let mut i: usize = 0;
    while i < entries.len()
        invariant
            i <= entries.len(),
            raw_entries(entries@) == entries_of(input@),
            records(recs@) == accepted(entries_of(input@).take(i as int)),
            texts(bad@) == rejected(entries_of(input@).take(i as int)),
        decreases entries.len() - i,
    {
        let e = &entries[i];
        let fields = extract_fields(e.body.as_str());
        proof {
            let next = entries_of(input@).take(i + 1);
            assert(next.drop_last() =~= entries_of(input@).take(i as int));
            assert(raw_entries(entries@)[i as int] == entries@[i as int]@);
            assert(next.last() == e@);
        }
        match map_entry(e.kind_raw.as_str(), e.key_raw.as_str(), &fields) {
            Ok(rec) => {
                let ghost before = records(recs@);
                recs.push(rec);
                assert(records(recs@) =~= before.push(rec@));
            },
            Err(key) => {
                let ghost before = texts(bad@);
                bad.push(key);
                assert(texts(bad@) =~= before.push(key@));
            },
        }
        i += 1;
    }
    assert(entries_of(input@).take(entries.len() as int) =~= entries_of(input@));
    BibtexImport { records: recs, rejected: bad }
}

/// Whether one of the fields is named `title`.
pub open spec fn has_title(fields: Seq<(Seq<char>, Seq<char>)>) -> bool {
    exists|i: int| 0 <= i < fields.len() && (#[trigger] fields[i]).0 == "title"@
}

/// A draft has a title exactly where one of the fields taken in is named
/// `title`.
proof fn lemma_drafted_title(fields: Seq<(Seq<char>, Seq<char>)>)
    ensures
        drafted(fields).title is Some <==> has_title(fields),
    decreases fields.len(),
{
    if fields.len() > 0 {
        let head = fields.drop_last();
        lemma_drafted_title(head);
        if has_title(head) {
            let i = choose|i: int| 0 <= i < head.len() && (#[trigger] head[i]).0 == "title"@;
            assert(fields[i] == head[i]);
        }
        if fields.last().0 == "title"@ {
            assert(fields[fields.len() - 1].0 == "title"@);
        }
        if has_title(fields) {
            let i = choose|i: int| 0 <= i < fields.len() && (#[trigger] fields[i]).0 == "title"@;
            if i < fields.len() - 1 {
                assert(head[i] == fields[i]);
            }
        }
    }
}

/// An entry is rejected exactly where none of its fields is named `title`,
/// and it is then reported under its working key.
pub proof fn lemma_rejected_iff_untitled(
    kind_raw: Seq<char>,
    key_raw: Seq<char>,
    fields: Seq<(Seq<char>, Seq<char>)>,
)
    ensures
        mapped(kind_raw, key_raw, fields) is Err <==> !has_title(fields),
        !has_title(fields) ==> mapped(kind_raw, key_raw, fields) == Err::<
            ReferenceView,
            Seq<char>,
        >(working_key(key_raw)),
{
    lemma_drafted_title(fields);
}

/// A text whose only entry has no `title` field gives no record and one
/// rejection, which names the key of the entry.
pub proof fn lemma_untitled_entry_is_reported(e: RawEntryView)
    requires
        !has_title(fields_of(e.body)),
    ensures
        accepted(seq![e]) == Seq::<ReferenceView>::empty(),
        rejected(seq![e]) == seq![working_key(e.key_raw)],
{
    lemma_rejected_iff_untitled(e.kind_raw, e.key_raw, fields_of(e.body));
    let one = seq![e];
    assert(one.drop_last() =~= Seq::<RawEntryView>::empty());
    assert(one.last() == e);
    assert(accepted(one.drop_last()) =~= Seq::<ReferenceView>::empty());
    assert(rejected(one.drop_last()) =~= Seq::<Seq<char>>::empty());
    assert(rejected(one) =~= seq![working_key(e.key_raw)]);
}

/// Every entry of a text is either accepted or rejected: the records and
/// the rejections together are as many as the entries.
pub proof fn lemma_accepted_or_rejected(entries: Seq<RawEntryView>)
    ensures
        accepted(entries).len() + rejected(entries).len() == entries.len(),
    decreases entries.len(),
{
    if entries.len() > 0 {
        lemma_accepted_or_rejected(entries.drop_last());
    }
}

/// How many lines a text has that splits into `pieces` at its line feeds:
/// an empty piece behind the last line feed is no line.
pub open spec fn line_count(pieces: Seq<Seq<char>>) -> nat {
    if pieces.len() > 0 && pieces.last().len() == 0 {
        (pieces.len() - 1) as nat
    } else {
        pieces.len()
    }
}

/// A line without the carriage return at its end, where it has one.
pub open spec fn without_return(line: Seq<char>) -> Seq<char> {
    if line.len() > 0 && line.last() == '\r' {
        line.drop_last()
    } else {
        line
    }
}

/// A line that holds a closing brace and nothing before it but whitespace,
/// without that whitespace; any other line as it is.
pub open spec fn closing_line(line: Seq<char>) -> Seq<char> {
    if line.subrange(skip_whitespace(line, 0), line.len() as int) == "}"@ {
        "}"@
    } else {
        line
    }
}

/// The lines of a text, closing braces moved to the beginning of their line.
/// A line ends at a line feed; a carriage return before the line feed is
/// not part of it.
pub open spec fn normalized_lines(s: Seq<char>) -> Seq<Seq<char>> {
    let pieces = split_on(s, "\n"@);
    Seq::new(
        line_count(pieces),
        |i: int|
            closing_line(
                if i < pieces.len() - 1 {
                    without_return(pieces[i])
                } else {
                    pieces[i]
                },
            ),
    )
}

/// The text with every closing brace that stands alone on its line moved to
/// the beginning of the line, and the lines joined by line feeds.
pub fn normalize_closing_braces(input: &str) -> (out: String)
    ensures
        out@ == joined(normalized_lines(input@), "\n"@),
{
    let pieces = split(&to_chars(input), &to_chars("\n"));
    let n = pieces.len();
    let count: usize = if n > 0 && pieces[n - 1].len() == 0 {
        n - 1
    } else {
        n
    };
    proof {
        assert(n > 0 ==> rows(pieces@)[n - 1] == pieces@[n - 1]@);
    }
    let mut lines: Vec<Vec<char>> = Vec::new();
    let mut i: usize = 0;
    assert(rows(lines@) =~= normalized_lines(input@).take(0));
    while i < count
        invariant
            i <= count <= n,
            n == pieces.len(),
            rows(pieces@) == split_on(input@, "\n"@),
            count == line_count(split_on(input@, "\n"@)),
            rows(lines@) == normalized_lines(input@).take(i as int),
        decreases count - i,
    {
        let piece = &pieces[i];
        assert(rows(pieces@)[i as int] == piece@);
        let end: usize = if i + 1 < n && piece.len() > 0 && piece[piece.len() - 1] == '\r' {
            piece.len() - 1
        } else {
            piece.len()
        };
        let line = slice_of(piece, 0, end);
        proof {
            assert(piece@.subrange(0, piece.len() as int) =~= piece@);
            assert(i + 1 < n ==> line@ =~= without_return(piece@));
        }
        let from = skip_whitespace_at(&line, 0);
        let rest = slice_of(&line, from, line.len());
        let ghost before = rows(lines@);
        if text_is(&rest, "}") {
            lines.push(to_chars("}"));
        } else {
            lines.push(line);
        }
        assert(rows(lines@) =~= before.push(normalized_lines(input@)[i as int]));
        i += 1;
        assert(rows(lines@) =~= normalized_lines(input@).take(i as int));
    }
    assert(normalized_lines(input@).take(count as int) =~= normalized_lines(input@));
    from_chars(&join(&lines, &to_chars("\n")))
}

/// A text whose only entry has a `title` field gives one record and no
/// rejection; the record is named by the working key of the entry and has
/// no stable identifier yet.
pub proof fn lemma_titled_entry_keeps_its_key(e: RawEntryView)
    requires
        has_title(fields_of(e.body)),
    ensures
        rejected(seq![e]) == Seq::<Seq<char>>::empty(),
        accepted(seq![e]).len() == 1,
        accepted(seq![e])[0].id == working_key(e.key_raw),
        accepted(seq![e])[0].sid.len() == 0,
{
    lemma_rejected_iff_untitled(e.kind_raw, e.key_raw, fields_of(e.body));
    let one = seq![e];
    assert(one.drop_last() =~= Seq::<RawEntryView>::empty());
    assert(one.last() == e);
    assert(accepted(one.drop_last()) =~= Seq::<ReferenceView>::empty());
    assert(rejected(one.drop_last()) =~= Seq::<Seq<char>>::empty());
}

} // verus!
