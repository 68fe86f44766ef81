//! Putting records and identifiers in order.
//!
//! Items are ordered by a key of three parts: a number, and two texts that
//! are compared character by character, a shorter text before a longer one
//! that begins with it. Items with equal keys keep the order in which they
//! came.

use vstd::prelude::*;
use crate::project::Project;
use crate::reference::{opt_record, Reference, ReferenceView};
use crate::text::{opt_str, same_text, to_chars};

verus! {

/// The key by which an item is ordered.
#[derive(Clone, Debug, PartialEq, Eq)]
pub struct SortKey {
    pub rank: u32,
    pub first: Vec<char>,
    pub second: Vec<char>,
}

/// What a `SortKey` value holds.
pub struct SortKeyView {
    pub rank: u32,
    pub first: Seq<char>,
    pub second: Seq<char>,
}

impl View for SortKey {
    type V = SortKeyView;

    open spec fn view(&self) -> SortKeyView {
        SortKeyView { rank: self.rank, first: self.first@, second: self.second@ }
    }
}

/// How two texts stand to each other from position `i` on, given that they
/// agree before it: -1 where `a` comes first, 1 where `b` does, 0 where
/// they are equal.
pub open spec fn text_order(a: Seq<char>, b: Seq<char>, i: int) -> int
    decreases a.len() - i,
{
    if i < 0 {
        0
    } else if i >= a.len() {
        if i >= b.len() {
            0
        } else {
            -1
        }
    } else if i >= b.len() {
        1
    } else if a[i] < b[i] {
        -1
    } else if a[i] > b[i] {
        1
    } else {
        text_order(a, b, i + 1)
    }
}

/// How two keys stand to each other: by the number, then by the first text,
/// then by the second.
pub open spec fn key_order(x: SortKeyView, y: SortKeyView) -> int {
    if x.rank < y.rank {
        -1
    } else if x.rank > y.rank {
        1
    } else if text_order(x.first, y.first, 0) != 0 {
        text_order(x.first, y.first, 0)
    } else {
        text_order(x.second, y.second, 0)
    }
}

/// Where an item with key `x` goes among `items`, which are in order: behind
/// the last of the first `j` items that does not come after it.
pub open spec fn slot<T>(items: Seq<(SortKeyView, T)>, x: SortKeyView, j: int) -> int
    decreases j,
{
    if 0 < j <= items.len() && key_order(x, items[j - 1].0) < 0 {
        slot(items, x, j - 1)
    } else {
        j
    }
}

/// The items in the order of their keys, those with equal keys in the order
/// in which they came.
pub open spec fn ordered<T>(items: Seq<(SortKeyView, T)>) -> Seq<(SortKeyView, T)>
    decreases items.len(),
{
    if items.len() == 0 {
        items
    } else {
        let rest = ordered(items.drop_last());
        rest.insert(slot(rest, items.last().0, rest.len() as int), items.last())
    }
}

/// Whether the keys of the items never go down.
pub open spec fn in_order<T>(items: Seq<(SortKeyView, T)>) -> bool {
    forall|i: int, j: int|
        0 <= i < j < items.len() ==> key_order(
            (#[trigger] items[i]).0,
            (#[trigger] items[j]).0,
        ) <= 0
}

/// The items of a vector with the views of their keys.
pub open spec fn keyed<T>(v: Seq<(SortKey, T)>) -> Seq<(SortKeyView, T)> {
    Seq::new(v.len(), |i: int| (v[i].0@, v[i].1))
}

/// The items without their keys.
pub open spec fn values<T>(items: Seq<(SortKeyView, T)>) -> Seq<T> {
    Seq::new(items.len(), |i: int| items[i].1)
}

/// Swapping two texts turns their order round.
proof fn lemma_text_order_swap(a: Seq<char>, b: Seq<char>, i: int)
    requires
        0 <= i,
    ensures
        text_order(a, b, i) == -text_order(b, a, i),
    decreases a.len() - i,
{
    if i < a.len() && i < b.len() && a[i] == b[i] {
        lemma_text_order_swap(a, b, i + 1);
    }
}

/// The order of texts is transitive, strictly where one of the two steps is
/// strict.
proof fn lemma_text_order_chain(a: Seq<char>, b: Seq<char>, c: Seq<char>, i: int)
    requires
        0 <= i,
        text_order(a, b, i) <= 0,
        text_order(b, c, i) <= 0,
    ensures
        text_order(a, c, i) <= 0,
        text_order(a, b, i) < 0 || text_order(b, c, i) < 0 ==> text_order(a, c, i) < 0,
        text_order(a, b, i) == 0 && text_order(b, c, i) == 0 ==> text_order(a, c, i) == 0,
    decreases a.len() - i,
{
    if i < a.len() && i < b.len() && i < c.len() && a[i] == b[i] && b[i] == c[i] {
        lemma_text_order_chain(a, b, c, i + 1);
    }
}

/// Swapping two keys turns their order round.
pub proof fn lemma_key_order_swap(x: SortKeyView, y: SortKeyView)
    ensures
        key_order(x, y) == -key_order(y, x),
{
    lemma_text_order_swap(x.first, y.first, 0);
    lemma_text_order_swap(x.second, y.second, 0);
}

/// The order of keys is transitive.
pub proof fn lemma_key_order_chain(x: SortKeyView, y: SortKeyView, z: SortKeyView)
    requires
        key_order(x, y) <= 0,
        key_order(y, z) <= 0,
    ensures
        key_order(x, z) <= 0,
{
    if x.rank == y.rank && y.rank == z.rank {
        lemma_text_order_chain(x.first, y.first, z.first, 0);
        if text_order(x.first, y.first, 0) == 0 && text_order(y.first, z.first, 0) == 0 {
            lemma_text_order_chain(x.second, y.second, z.second, 0);
        }
    }
}

/// The slot of an item lies among the items, every item from the slot on
/// comes after the new one, and the item before the slot does not.
proof fn lemma_slot<T>(items: Seq<(SortKeyView, T)>, x: SortKeyView, j: int)
    requires
        0 <= j <= items.len(),
    ensures
        0 <= slot(items, x, j) <= j,
        forall|k: int| slot(items, x, j) <= k < j ==> key_order(x, (#[trigger] items[k]).0) < 0,
        slot(items, x, j) > 0 ==> key_order(x, items[slot(items, x, j) - 1].0) >= 0,
    decreases j,
{
    if 0 < j && key_order(x, items[j - 1].0) < 0 {
        lemma_slot(items, x, j - 1);
    }
}

/// Putting an item into its slot keeps the items in order.
proof fn lemma_insert_keeps_order<T>(items: Seq<(SortKeyView, T)>, x: (SortKeyView, T))
    requires
        in_order(items),
    ensures
        in_order(items.insert(slot(items, x.0, items.len() as int), x)),
{
    let p = slot(items, x.0, items.len() as int);
    lemma_slot(items, x.0, items.len() as int);
    let out = items.insert(p, x);
    assert forall|i: int, j: int| 0 <= i < j < out.len() implies key_order(
        (#[trigger] out[i]).0,
        (#[trigger] out[j]).0,
    ) <= 0 by {
        if j < p {
            assert(out[i] == items[i] && out[j] == items[j]);
        } else if j == p {
            assert(out[i] == items[i]);
            lemma_key_order_swap(x.0, items[p - 1].0);
            if i < p - 1 {
                assert(key_order(items[i].0, items[p - 1].0) <= 0);
                lemma_key_order_chain(items[i].0, items[p - 1].0, x.0);
            }
        } else if i < p {
            assert(out[i] == items[i] && out[j] == items[j - 1]);
        } else if i == p {
            assert(out[j] == items[j - 1]);
            assert(key_order(x.0, items[j - 1].0) < 0);
        } else {
            assert(out[i] == items[i - 1] && out[j] == items[j - 1]);
        }
    }
}

/// Ordering puts the items in order.
pub proof fn lemma_ordered_in_order<T>(items: Seq<(SortKeyView, T)>)
    ensures
        in_order(ordered(items)),
        ordered(items).len() == items.len(),
    decreases items.len(),
{
    if items.len() > 0 {
        lemma_ordered_in_order(items.drop_last());
        let rest = ordered(items.drop_last());
        lemma_slot(rest, items.last().0, rest.len() as int);
        lemma_insert_keeps_order(rest, items.last());
    }
}

/// Ordering neither loses nor adds an item.
pub proof fn lemma_ordered_permutes<T>(items: Seq<(SortKeyView, T)>)
    ensures
        ordered(items).to_multiset() == items.to_multiset(),
    decreases items.len(),
{
    if items.len() > 0 {
        let head = items.drop_last();
        lemma_ordered_permutes(head);
        lemma_ordered_in_order(head);
        let rest = ordered(head);
        lemma_slot(rest, items.last().0, rest.len() as int);
        vstd::seq_lib::to_multiset_insert(
            rest,
            slot(rest, items.last().0, rest.len() as int),
            items.last(),
        );
        vstd::seq_lib::to_multiset_build(head, items.last());
        assert(head.push(items.last()) =~= items);
    } else {
        assert(ordered(items) =~= items);
    }
}

/// How two texts stand to each other: -1, 0 or 1.
pub fn order_texts(a: &Vec<char>, b: &Vec<char>) -> (r: i8)
    ensures
        r == text_order(a@, b@, 0),
{
    let mut i: usize = 0;
    while i < a.len() && i < b.len()
        invariant
            i <= a.len(),
            i <= b.len(),
            text_order(a@, b@, 0) == text_order(a@, b@, i as int),
        decreases a.len() - i,
    {
        if a[i] < b[i] {
            return -1;
        }
        if a[i] > b[i] {
            return 1;
        }
        i += 1;
    }
    if i >= a.len() {
        if i >= b.len() {
            0
        } else {
            -1
        }
    } else {
        1
    }
}

/// How two keys stand to each other: -1, 0 or 1.
pub fn order_keys(x: &SortKey, y: &SortKey) -> (r: i8)
    ensures
        r == key_order(x@, y@),
{
    if x.rank < y.rank {
        -1
    } else if x.rank > y.rank {
        1
    } else {
        let f = order_texts(&x.first, &y.first);
        if f != 0 {
            f
        } else {
            order_texts(&x.second, &y.second)
        }
    }
}

/// Puts the items in the order of their keys; items with equal keys keep
/// the order in which they stand.
pub fn sort_by_key<T>(items: &mut Vec<(SortKey, T)>)
    ensures
        keyed(final(items)@) == ordered(keyed(old(items)@)),
{
    let mut out: Vec<(SortKey, T)> = Vec::new();
    let ghost orig = keyed(items@);
    let ghost n = items.len();
    let mut k: usize = 0;
    proof {
        assert(keyed(items@) =~= orig.subrange(0, n as int));
        assert(orig.take(0) =~= Seq::empty());
        assert(keyed(out@) =~= ordered(orig.take(0)));
    }
    while items.len() > 0
        invariant
            k + items.len() == n,
            orig.len() == n,
            keyed(items@) == orig.subrange(k as int, n as int),
            keyed(out@) == ordered(orig.take(k as int)),
            out.len() == k,
        decreases items.len(),
    {
        let ghost rest_before = keyed(items@);
        let ghost raw_before = items@;
        let x = items.remove(0);
        assert forall|i: int| 0 <= i < items@.len() implies #[trigger] keyed(items@)[i]
            == rest_before[i + 1] by {
            assert(items@[i] == raw_before[i + 1]);
        }
        let ghost placed_before = keyed(out@);
        let mut j: usize = out.len();
        while j > 0 && order_keys(&x.0, &out[j - 1].0) < 0
            invariant
                j <= out.len(),
                placed_before == keyed(out@),
                slot(placed_before, x.0@, out.len() as int) == slot(placed_before, x.0@, j as int),
            decreases j,
        {
            j -= 1;
        }
        out.insert(j, x);
        proof {
            let next = orig.take(k + 1);
            assert(next.drop_last() =~= orig.take(k as int));
            assert(rest_before[0] == orig[k as int]);
            assert(next.last() == (x.0@, x.1));
            assert(keyed(out@) =~= placed_before.insert(j as int, (x.0@, x.1)));
            assert(keyed(items@) =~= orig.subrange(k + 1, n as int));
            lemma_ordered_in_order(orig.take(k as int));
        }
        k += 1;
    }
    proof {
        assert(orig.take(n as int) =~= orig);
    }
    *items = out;
}

/// The items paired with the views of their keys.
pub open spec fn zipped<T>(keys: Seq<SortKey>, items: Seq<T>) -> Seq<(SortKeyView, T)> {
    Seq::new(items.len(), |i: int| (keys[i]@, items[i]))
}

/// Puts the items in the order of the keys given for them, one key for each
/// item.
pub(crate) fn sort_with_keys<T>(items: &mut Vec<T>, keys: Vec<SortKey>)
    requires
        keys.len() == old(items).len(),
    ensures
        final(items)@ == values(ordered(zipped(keys@, old(items)@))),
{
    let ghost orig = items@;
    let ghost all = zipped(keys@, orig);
    let mut keys = keys;
    let mut pairs: Vec<(SortKey, T)> = Vec::new();
    assert(keyed(pairs@) =~= all.take(0));
    while items.len() > 0
        invariant
            pairs.len() + items.len() == orig.len(),
            keys.len() == items.len(),
            all.len() == orig.len(),
            forall|i: int|
                0 <= i < items.len() ==> (keys@[i]@, items@[i]) == #[trigger] all[pairs.len() + i],
            keyed(pairs@) == all.take(pairs.len() as int),
        decreases items.len(),
    {
        let ghost before = keyed(pairs@);
        let ghost k = pairs.len();
        let ghost keys_before = keys@;
        let ghost items_before = items@;
        assert((keys_before[0]@, items_before[0]) == all[k + 0]);
        let item = items.remove(0);
        let key = keys.remove(0);
        assert((key@, item) == all[k as int]);
        assert forall|i: int| 0 <= i < items.len() implies (keys@[i]@, items@[i])
            == #[trigger] all[k + 1 + i] by {
            assert(keys@[i] == keys_before[i + 1]);
            assert(items@[i] == items_before[i + 1]);
            assert((keys_before[i + 1]@, items_before[i + 1]) == all[k + (i + 1)]);
        }
        pairs.push((key, item));
        assert(keyed(pairs@) =~= before.push(all[k as int]));
        assert(keyed(pairs@) =~= all.take(k + 1));
    }
    assert(all.take(orig.len() as int) =~= all);
    sort_by_key(&mut pairs);
    let ghost sorted = keyed(pairs@);
    proof {
        lemma_ordered_in_order(all);
    }
    let ghost total = pairs.len();
    assert(items@ =~= values(sorted).take(0));
    while pairs.len() > 0
        invariant
            items.len() + pairs.len() == total,
            sorted.len() == total,
            keyed(pairs@) == sorted.subrange(items.len() as int, total as int),
            items@ == values(sorted).take(items.len() as int),
        decreases pairs.len(),
    {
        let ghost k = items.len();
        let ghost before = keyed(pairs@);
        let ghost raw_before = pairs@;
        let pair = pairs.remove(0);
        assert(before[0] == sorted[k as int]);
        assert forall|i: int| 0 <= i < pairs@.len() implies #[trigger] keyed(pairs@)[i] == before[i
            + 1] by {
            assert(pairs@[i] == raw_before[i + 1]);
        }
        items.push(pair.1);
        assert(items@ =~= values(sorted).take(k + 1));
        assert(keyed(pairs@) =~= sorted.subrange(k + 1, total as int));
    }
    assert(values(sorted).take(total as int) =~= values(sorted));
}

/// The key by which records are ordered for printing: the year, records
/// without a year last; then the first author, records without authors
/// first; then the identifier.
pub open spec fn print_key(r: ReferenceView) -> SortKeyView {
    SortKeyView {
        rank: match r.year {
            Some(y) => y as u32,
            None => 65536,
        },
        first: if r.authors.len() > 0 {
            r.authors[0]
        } else {
            Seq::empty()
        },
        second: r.id,
    }
}

/// The records with their keys for printing.
pub open spec fn print_keyed(refs: Seq<Reference>) -> Seq<(SortKeyView, Reference)> {
    Seq::new(refs.len(), |i: int| (print_key(refs[i]@), refs[i]))
}

/// The key by which a record is ordered for printing.
pub fn print_key_of(r: &Reference) -> (key: SortKey)
    ensures
        key@ == print_key(r@),
{
    let rank: u32 = match r.year {
        Some(y) => y as u32,
        None => 65536,
    };
    let first = if r.authors.len() > 0 {
        to_chars(r.authors[0].as_str())
    } else {
        Vec::new()
    };
    SortKey { rank, first, second: to_chars(r.id.as_str()) }
}

/// Puts records in the order in which they are printed: by year, then by
/// first author, then by identifier.
pub fn sort_references(refs: &mut Vec<Reference>)
    ensures
        final(refs)@ == values(ordered(print_keyed(old(refs)@))),
{
    let mut keys: Vec<SortKey> = Vec::new();
    let mut i: usize = 0;
    while i < refs.len()
        invariant
            i <= refs.len(),
            keys.len() == i,
            refs@ == old(refs)@,
            forall|j: int| 0 <= j < i ==> (#[trigger] keys@[j])@ == print_key(refs@[j]@),
        decreases refs.len() - i,
    {
        keys.push(print_key_of(&refs[i]));
        i += 1;
    }
    assert(zipped(keys@, refs@) =~= print_keyed(refs@));
    sort_with_keys(refs, keys);
}

/// The key of an identifier: the identifier itself.
pub open spec fn id_key(id: Seq<char>) -> SortKeyView {
    SortKeyView { rank: 0, first: id, second: Seq::empty() }
}

/// The identifiers with their keys.
pub open spec fn id_keyed(ids: Seq<String>) -> Seq<(SortKeyView, String)> {
    Seq::new(ids.len(), |i: int| (id_key(ids[i]@), ids[i]))
}

/// Puts identifiers in order.
pub fn sort_ids(ids: &mut Vec<String>)
    ensures
        final(ids)@ == values(ordered(id_keyed(old(ids)@))),
{
    let mut keys: Vec<SortKey> = Vec::new();
    let mut i: usize = 0;
    while i < ids.len()
        invariant
            i <= ids.len(),
            keys.len() == i,
            ids@ == old(ids)@,
            forall|j: int| 0 <= j < i ==> (#[trigger] keys@[j])@ == id_key(ids@[j]@),
        decreases ids.len() - i,
    {
        keys.push(SortKey { rank: 0, first: to_chars(ids[i].as_str()), second: Vec::new() });
        i += 1;
    }
    assert(zipped(keys@, ids@) =~= id_keyed(ids@));
    sort_with_keys(ids, keys);
}

/// The projects with their keys: their identifiers.
pub open spec fn project_keyed(all: Seq<Project>) -> Seq<(SortKeyView, Project)> {
    Seq::new(all.len(), |i: int| (id_key(all[i].id@), all[i]))
}

/// Puts projects in the order of their identifiers.
pub fn sort_projects(all: &mut Vec<Project>)
    ensures
        final(all)@ == values(ordered(project_keyed(old(all)@))),
{
    let mut keys: Vec<SortKey> = Vec::new();
    let mut i: usize = 0;
    while i < all.len()
        invariant
            i <= all.len(),
            keys.len() == i,
            all@ == old(all)@,
            forall|j: int| 0 <= j < i ==> (#[trigger] keys@[j])@ == id_key(all@[j].id@),
        decreases all.len() - i,
    {
        keys.push(SortKey { rank: 0, first: to_chars(all[i].id.as_str()), second: Vec::new() });
        i += 1;
    }
    assert(zipped(keys@, all@) =~= project_keyed(all@));
    sort_with_keys(all, keys);
}

/// By what a listing of records is ordered.
#[derive(Clone, Copy, Debug, PartialEq, Eq, Structural)]
pub enum ListOrder {
    ById,
    ByTitle,
    ByAuthor,
    ByYear,
    /// Not at all: the listing stays as it is.
    AsIs,
}

/// The order that an option names: by identifier where none is given, and
/// none at all where the name is unknown.
pub open spec fn order_named(sort: Option<Seq<char>>) -> ListOrder {
    match sort {
        None => ListOrder::ById,
        Some(s) => if s == "id"@ {
            ListOrder::ById
        } else if s == "title"@ {
            ListOrder::ByTitle
        } else if s == "author"@ {
            ListOrder::ByAuthor
        } else if s == "year"@ {
            ListOrder::ByYear
        } else {
            ListOrder::AsIs
        },
    }
}

/// The order that an option names.
pub fn list_order(sort: Option<&str>) -> (order: ListOrder)
    ensures
        order == order_named(opt_str(sort)),
{
    match sort {
        None => ListOrder::ById,
        Some(s) => {
            if same_text(s, "id") {
                ListOrder::ById
            } else if same_text(s, "title") {
                ListOrder::ByTitle
            } else if same_text(s, "author") {
                ListOrder::ByAuthor
            } else if same_text(s, "year") {
                ListOrder::ByYear
            } else {
                ListOrder::AsIs
            }
        },
    }
}

/// The key of one line of a listing: the identifier of a record and the
/// record itself, where it could be read. By title, a record that could not
/// be read comes before all that could; by author, it counts as one without
/// authors; by year, as one of the year 0.
pub open spec fn listing_key(order: ListOrder, id: Seq<char>, r: Option<ReferenceView>) -> SortKeyView {
    let none = SortKeyView { rank: 0, first: Seq::empty(), second: Seq::empty() };
    match order {
        ListOrder::ById => SortKeyView { first: id, ..none },
        ListOrder::ByTitle => match r {
            Some(r) => SortKeyView { rank: 1, first: r.title, ..none },
            None => none,
        },
        ListOrder::ByAuthor => match r {
            Some(r) => if r.authors.len() > 0 {
                SortKeyView { first: r.authors[0], ..none }
            } else {
                none
            },
            None => none,
        },
        ListOrder::ByYear => match r {
            Some(r) => match r.year {
                Some(y) => SortKeyView { rank: y as u32, ..none },
                None => none,
            },
            None => none,
        },
        ListOrder::AsIs => none,
    }
}

/// The key of one line of a listing.
pub fn listing_key_of(order: ListOrder, id: &str, r: &Option<Reference>) -> (key: SortKey)
    ensures
        key@ == listing_key(order, id@, opt_record(*r)),
{
    let mut key = SortKey { rank: 0, first: Vec::new(), second: Vec::new() };
    match order {
        ListOrder::ById => {
            key.first = to_chars(id);
        },
        ListOrder::ByTitle => {
            match r {
                Some(r) => {
                    key.rank = 1;
                    key.first = to_chars(r.title.as_str());
                },
                None => {},
            }
        },
        ListOrder::ByAuthor => {
            match r {
                Some(r) => {
                    if r.authors.len() > 0 {
                        key.first = to_chars(r.authors[0].as_str());
                    }
                },
                None => {},
            }
        },
        ListOrder::ByYear => {
            match r {
                Some(r) => {
                    match r.year {
                        Some(y) => {
                            key.rank = y as u32;
                        },
                        None => {},
                    }
                },
                None => {},
            }
        },
        ListOrder::AsIs => {},
    }
    key
}

/// The lines of a listing with their keys.
pub open spec fn listing_keyed(order: ListOrder, lines: Seq<(String, Option<Reference>)>) -> Seq<
    (SortKeyView, (String, Option<Reference>)),
> {
    Seq::new(
        lines.len(),
        |i: int| (listing_key(order, lines[i].0@, opt_record(lines[i].1)), lines[i]),
    )
}

/// The lines of a listing in the order that the option names; as they are
/// where it names none.
pub open spec fn listed(lines: Seq<(String, Option<Reference>)>, sort: Option<Seq<char>>) -> Seq<
    (String, Option<Reference>),
> {
    if order_named(sort) == ListOrder::AsIs {
        lines
    } else {
        values(ordered(listing_keyed(order_named(sort), lines)))
    }
}

/// Puts the lines of a listing in order. Each line is the identifier of a
/// record and the record itself, where it could be read. An unknown order
/// leaves the listing as it is.
pub fn sort_refs(lines: &mut Vec<(String, Option<Reference>)>, sort: Option<&str>)
    ensures
        final(lines)@ == listed(old(lines)@, opt_str(sort)),
{
    let order = list_order(sort);
    if order == ListOrder::AsIs {
        return;
    }
    let mut keys: Vec<SortKey> = Vec::new();
    let mut i: usize = 0;
    while i < lines.len()
        invariant
            i <= lines.len(),
            keys.len() == i,
            lines@ == old(lines)@,
            forall|j: int|
                0 <= j < i ==> (#[trigger] keys@[j])@ == listing_key(
                    order,
                    lines@[j].0@,
                    opt_record(lines@[j].1),
                ),
        decreases lines.len() - i,
    {
        keys.push(listing_key_of(order, lines[i].0.as_str(), &lines[i].1));
        i += 1;
    }
    assert(zipped(keys@, lines@) =~= listing_keyed(order, lines@));
    sort_with_keys(lines, keys);
}

} // verus!
