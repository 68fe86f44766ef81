//! Writing records as BibTeX.
//!
//! A record is written as one block: `@KIND{id,`, one line for each field
//! that the record has, and a closing brace. The fields come in a fixed
//! order (title, author, editor, year, the venue, then DOI, URL and ISBN),
//! and every value stands in braces. Equal records give equal text.

use vstd::prelude::*;
use crate::number::{decimal, decimal_digits};
use crate::reference::{RefKind, Reference, ReferenceView, Venue, VenueView};
use crate::text::{
    append, append_text, from_chars, join, joined, opt_text, pad_right, padded_right, texts,
    to_chars, to_rows,
};

verus! {

/// The width to which field names are padded.
pub const NAME_WIDTH: usize = 9;

/// The name of a kind as it stands behind the `@`.
pub open spec fn kind_name(kind: RefKind) -> Seq<char> {
    match kind {
        RefKind::Article => "ARTICLE"@,
        RefKind::InProceedings => "INPROCEEDINGS"@,
        RefKind::InCollection => "INCOLLECTION"@,
        RefKind::InBook => "INBOOK"@,
        RefKind::Book => "BOOK"@,
        RefKind::Misc => "MISC"@,
    }
}

/// The line of one field: two spaces, the name padded to nine characters,
/// `= {`, the value, `},` and a line feed.
pub open spec fn field_line(name: Seq<char>, value: Seq<char>) -> Seq<char> {
    "  "@ + padded_right(name, NAME_WIDTH as nat, ' ') + "= {"@ + value + "},\n"@
}

/// The line of a field that may be absent: nothing where it is.
pub open spec fn optional_line(name: Seq<char>, value: Option<Seq<char>>) -> Seq<char> {
    match value {
        Some(v) => field_line(name, v),
        None => Seq::empty(),
    }
}

/// The line of a list of names, joined by ` and `: nothing where the list is
/// empty.
pub open spec fn names_line(name: Seq<char>, names: Seq<Seq<char>>) -> Seq<char> {
    if names.len() == 0 {
        Seq::empty()
    } else {
        field_line(name, joined(names, " and "@))
    }
}

/// The line of the year, written in decimal.
pub open spec fn year_line(year: Option<u16>) -> Seq<char> {
    match year {
        Some(y) => field_line("year"@, decimal_digits(y as nat)),
        None => Seq::empty(),
    }
}

/// The lines of a venue.
pub open spec fn venue_lines(v: VenueView) -> Seq<char> {
    optional_line("journal"@, v.journal) + optional_line("booktitle"@, v.booktitle)
        + optional_line("publisher"@, v.publisher) + optional_line("series"@, v.series)
        + optional_line("volume"@, v.volume) + optional_line("number"@, v.issue) + optional_line(
        "pages"@,
        v.pages,
    ) + optional_line("address"@, v.address)
}

/// The lines of a venue that may be absent.
pub open spec fn optional_venue_lines(v: Option<VenueView>) -> Seq<char> {
    match v {
        Some(v) => venue_lines(v),
        None => Seq::empty(),
    }
}

/// The BibTeX block of a record.
pub open spec fn rendered(r: ReferenceView) -> Seq<char> {
    "@"@ + kind_name(r.kind) + "{"@ + r.id + ",\n"@ + field_line("title"@, r.title) + names_line(
        "author"@,
        r.authors,
    ) + names_line("editor"@, r.editors) + year_line(r.year) + optional_venue_lines(r.venue)
        + optional_line("doi"@, r.identifiers.doi) + optional_line("url"@, r.identifiers.url)
        + optional_line("isbn"@, r.identifiers.isbn) + "}\n"@
}

/// The name of a kind as it stands behind the `@`.
pub fn kind_name_of(kind: RefKind) -> (name: &'static str)
    ensures
        name@ == kind_name(kind),
{
    match kind {
        RefKind::Article => "ARTICLE",
        RefKind::InProceedings => "INPROCEEDINGS",
        RefKind::InCollection => "INCOLLECTION",
        RefKind::InBook => "INBOOK",
        RefKind::Book => "BOOK",
        RefKind::Misc => "MISC",
    }
}

fn put_field(out: &mut Vec<char>, name: &str, value: &Vec<char>)
    ensures
        final(out)@ == old(out)@ + field_line(name@, value@),
{
    append_text(out, "  ");
    let padded = pad_right(&to_chars(name), NAME_WIDTH, ' ');
    append(out, &padded);
    append_text(out, "= {");
    append(out, value);
    append_text(out, "},\n");
    assert(out@ =~= old(out)@ + field_line(name@, value@));
}

fn put_optional(out: &mut Vec<char>, name: &str, value: &Option<String>)
    ensures
        final(out)@ == old(out)@ + optional_line(name@, opt_text(*value)),
{
    match value {
        Some(v) => {
            let chars = to_chars(v.as_str());
            put_field(out, name, &chars);
        },
        None => {
            assert(out@ =~= old(out)@ + Seq::<char>::empty());
        },
    }
}

fn put_names(out: &mut Vec<char>, name: &str, names: &Vec<String>)
    ensures
        final(out)@ == old(out)@ + names_line(name@, texts(names@)),
{
    if names.len() == 0 {
        assert(out@ =~= old(out)@ + Seq::<char>::empty());
    } else {
        let all = join(&to_rows(names), &to_chars(" and "));
        put_field(out, name, &all);
    }
}

fn put_venue(out: &mut Vec<char>, v: &Venue)
    ensures
        final(out)@ == old(out)@ + venue_lines(v@),
{
    put_optional(out, "journal", &v.journal);
    put_optional(out, "booktitle", &v.booktitle);
    put_optional(out, "publisher", &v.publisher);
    put_optional(out, "series", &v.series);
    put_optional(out, "volume", &v.volume);
    put_optional(out, "number", &v.issue);
    put_optional(out, "pages", &v.pages);
    put_optional(out, "address", &v.address);
    assert(out@ =~= old(out)@ + venue_lines(v@));
}

/// The BibTeX block of a record.
pub fn render_bibtex(r: &Reference) -> (text: String)
    ensures
        text@ == rendered(r@),
{
    let mut out: Vec<char> = Vec::new();
    append_text(&mut out, "@");
    append_text(&mut out, kind_name_of(r.kind));
    append_text(&mut out, "{");
    append(&mut out, &to_chars(r.id.as_str()));
    append_text(&mut out, ",\n");
    let ghost head = out@;
    assert(head =~= "@"@ + kind_name(r.kind) + "{"@ + r.id@ + ",\n"@);
    put_field(&mut out, "title", &to_chars(r.title.as_str()));
    put_names(&mut out, "author", &r.authors);
    put_names(&mut out, "editor", &r.editors);
    match r.year {
        Some(y) => {
            let digits = decimal(y);
            put_field(&mut out, "year", &digits);
        },
        None => {
            assert(out@ =~= out@ + Seq::<char>::empty());
        },
    }
    let ghost core = out@;
    assert(core =~= head + field_line("title"@, r.title@) + names_line("author"@, r@.authors)
        + names_line("editor"@, r@.editors) + year_line(r.year));
    match &r.venue {
        Some(v) => {
            put_venue(&mut out, v);
        },
        None => {
            assert(out@ =~= out@ + Seq::<char>::empty());
        },
    }
    assert(out@ =~= core + optional_venue_lines(r@.venue));
    put_optional(&mut out, "doi", &r.identifiers.doi);
    put_optional(&mut out, "url", &r.identifiers.url);
    put_optional(&mut out, "isbn", &r.identifiers.isbn);
    append_text(&mut out, "}\n");
    assert(out@ =~= rendered(r@));
    from_chars(&out)
}

/// The text of a BibTeX file that holds the given blocks, each followed by
/// an empty line.
pub open spec fn file_of(blocks: Seq<Seq<char>>) -> Seq<char>
    decreases blocks.len(),
{
    if blocks.len() == 0 {
        Seq::empty()
    } else {
        file_of(blocks.drop_last()) + blocks.last() + "\n"@
    }
}

/// The blocks of a sequence of records.
pub open spec fn rendered_all(refs: Seq<Reference>) -> Seq<Seq<char>> {
    Seq::new(refs.len(), |i: int| rendered(refs[i]@))
}

/// The text of the BibTeX file of the records: their blocks in order, each
/// followed by an empty line.
pub fn render_file(refs: &Vec<Reference>) -> (text: String)
    ensures
        text@ == file_of(rendered_all(refs@)),
{
    let mut out: Vec<char> = Vec::new();
    let mut i: usize = 0;
    assert(rendered_all(refs@).take(0) =~= Seq::empty());
    while i < refs.len()
        invariant
            i <= refs.len(),
            out@ == file_of(rendered_all(refs@).take(i as int)),
        decreases refs.len() - i,
    {
        proof {
            let next = rendered_all(refs@).take(i + 1);
            assert(next.drop_last() =~= rendered_all(refs@).take(i as int));
            assert(next.last() == rendered(refs@[i as int]@));
        }
        let block = render_bibtex(&refs[i]);
        append(&mut out, &to_chars(block.as_str()));
        append_text(&mut out, "\n");
        i += 1;
    }
    assert(rendered_all(refs@).take(refs.len() as int) =~= rendered_all(refs@));
    from_chars(&out)
}

/// The name of the file that the blocks of the given projects are written
/// to: `global_references.bib` for all projects, and otherwise the names of
/// the projects joined by `+`, followed by `_references.bib`.
pub open spec fn output_name(all: bool, project_ids: Seq<Seq<char>>) -> Seq<char> {
    if all {
        "global_references.bib"@
    } else {
        joined(project_ids, "+"@) + "_references.bib"@
    }
}

/// The name of the file that the blocks of the given projects are written
/// to.
pub fn output_file_name(all: bool, project_ids: &Vec<String>) -> (name: String)
    ensures
        name@ == output_name(all, texts(project_ids@)),
{
    if all {
        "global_references.bib".to_owned()
    } else {
        let mut out = join(&to_rows(project_ids), &to_chars("+"));
        append_text(&mut out, "_references.bib");
        from_chars(&out)
    }
}

} // verus!
