//! Reading the fields of one BibTeX entry.
//!
//! A field is an identifier, `=`, and a value between braces or between
//! double quotes. Whitespace may stand on both sides of the `=`. A braced
//! value ends at the brace that matches its opening brace; a quoted value
//! ends at the first double quote that no backslash precedes.

use vstd::prelude::*;
use crate::entries::{
    brace_stop, brace_stop_at, find_unescaped, find_unescaped_at, ident_char, ident_end,
    ident_end_at, is_ident_char,
};
use crate::text::{
    from_chars, normalize, normalized, skip_whitespace, skip_whitespace_at, slice_of, to_chars,
    unicode_lowercase,
};

verus! {

/// The positions that delimit one field.
pub struct FieldSpan {
    /// Where the name ends.
    pub name_end: int,
    /// Where the brace or quote that opens the value stands.
    pub open: int,
    /// Where the brace or quote that closes the value stands.
    pub close: int,
}

/// The field whose name begins at position `i` of the body `b`, where the
/// name is followed by `=` and a value that is closed.
pub open spec fn field_at(b: Seq<char>, i: int) -> Option<FieldSpan> {
    let name_end = ident_end(b, i);
    let eq = skip_whitespace(b, name_end);
    let open = skip_whitespace(b, eq + 1);
    if 0 <= eq < b.len() && b[eq] == '=' && 0 <= open < b.len() {
        let close = if b[open] == '{' {
            brace_stop(b, open + 1, 1, false)
        } else if b[open] == '"' {
            find_unescaped(b, '"', open + 1)
        } else {
            b.len() as int
        };
        if close < b.len() {
            Some(FieldSpan { name_end, open, close })
        } else {
            None
        }
    } else {
        None
    }
}

/// The field that `span` delimits: its name in lower case, and its value in
/// normal form.
pub open spec fn field_of(b: Seq<char>, i: int, span: FieldSpan) -> (Seq<char>, Seq<char>) {
    (
        unicode_lowercase(b.subrange(i, span.name_end)),
        normalized(b.subrange(span.open + 1, span.close)),
    )
}

/// The fields of the body `b` found from position `i` on, in order. An
/// identifier that begins no complete field is passed over.
pub open spec fn fields_from(b: Seq<char>, i: int) -> Seq<(Seq<char>, Seq<char>)>
    decreases b.len() - i,
{
    if i < 0 || i >= b.len() {
        Seq::empty()
    } else if ident_char(b[i]) {
        match field_at(b, i) {
            Some(span) => if span.close >= i {
                seq![field_of(b, i, span)] + fields_from(b, span.close + 1)
            } else {
                Seq::empty()
            },
            None => if i < ident_end(b, i) <= b.len() {
                fields_from(b, ident_end(b, i))
            } else {
                Seq::empty()
            },
        }
    } else {
        fields_from(b, i + 1)
    }
}

/// The fields of an entry body, as pairs of name and value.
pub open spec fn fields_of(b: Seq<char>) -> Seq<(Seq<char>, Seq<char>)> {
    fields_from(b, 0)
}

/// One field of an entry: its name in lower case and its value in normal
/// form.
#[derive(Clone, Debug, PartialEq, Eq)]
pub struct Field {
    pub name: String,
    pub value: String,
}

impl View for Field {
    type V = (Seq<char>, Seq<char>);

    open spec fn view(&self) -> (Seq<char>, Seq<char>) {
        (self.name@, self.value@)
    }
}

/// The views of a sequence of fields.
pub open spec fn field_pairs(v: Seq<Field>) -> Seq<(Seq<char>, Seq<char>)> {
    Seq::new(v.len(), |i: int| v[i]@)
}

/// The positions of one field, as the scan finds them.
pub struct FieldBounds {
    pub name_end: usize,
    pub open: usize,
    pub close: usize,
}

impl View for FieldBounds {
    type V = FieldSpan;

    open spec fn view(&self) -> FieldSpan {
        FieldSpan {
            name_end: self.name_end as int,
            open: self.open as int,
            close: self.close as int,
        }
    }
}

/// Delimits the field whose name begins at position `i`.
pub fn scan_field(b: &Vec<char>, i: usize) -> (r: Option<FieldBounds>)
    ensures
        match r {
            Some(f) => field_at(b@, i as int) == Some(f@) && i <= f.name_end < f.open < f.close
                < b.len(),
            None => field_at(b@, i as int) is None,
        },
{
    if i >= b.len() {
        return None;
    }
    let name_end = ident_end_at(b, i);
    let eq = skip_whitespace_at(b, name_end);
    if eq >= b.len() || b[eq] != '=' {
        return None;
    }
    let open = skip_whitespace_at(b, eq + 1);
    if open >= b.len() {
        return None;
    }
    let close = if b[open] == '{' {
        brace_stop_at(b, open + 1, false)
    } else if b[open] == '"' {
        find_unescaped_at(b, '"', open + 1)
    } else {
        b.len()
    };
    if close >= b.len() {
        return None;
    }
    Some(FieldBounds { name_end, open, close })
}

/// The fields of an entry body, in the order in which they stand in it.
pub fn extract_fields(body: &str) -> (out: Vec<Field>)
    ensures
        field_pairs(out@) == fields_of(body@),
{
    let b = to_chars(body);
    let mut out: Vec<Field> = Vec::new();
    let mut i: usize = 0;
    while i < b.len()
        invariant
            i <= b.len(),
            b@ == body@,
            field_pairs(out@) + fields_from(b@, i as int) == fields_of(b@),
        decreases b.len() - i,
    {
        if is_ident_char(b[i]) {
            match scan_field(&b, i) {
                Some(f) => {
                    let name = from_chars(&slice_of(&b, i, f.name_end));
                    let raw = slice_of(&b, f.open + 1, f.close);
                    let field = Field {
                        name: name.as_str().to_lowercase(),
                        value: from_chars(&normalize(&raw)),
                    };
                    let ghost before = field_pairs(out@);
                    out.push(field);
                    proof {
                        assert(field@ == field_of(b@, i as int, f@));
                        assert(field_pairs(out@) =~= before + seq![field_of(b@, i as int, f@)]);
                        assert(field_pairs(out@) + fields_from(b@, f.close + 1) =~= fields_of(b@));
                    }
                    i = f.close + 1;
                },
                None => {
                    i = ident_end_at(&b, i);
                },
            }
        } else {
            i += 1;
        }
    }
    assert(field_pairs(out@) =~= fields_of(b@));
    out
}

} // verus!
