//! Resolving what a user typed to one record or one project.
//!
//! Every record and every project has two names: a stable identifier and a
//! readable identifier. A selector is looked up in four stages, and the
//! first stage that answers decides:
//!
//! 1. a stable identifier equal to the selector;
//! 2. the stable identifiers that begin with the selector: one is the
//!    answer, several are an ambiguity;
//! 3. a readable identifier equal to the selector;
//! 4. the readable identifiers that begin with the selector: one is the
//!    answer, several are an ambiguity, none means that nothing was found.
//!
//! The answer is always a readable identifier.

use vstd::prelude::*;
use crate::project::Project;
use crate::reference::Reference;
use crate::text::{has_prefix, same_text, starts_with, text_pairs, texts, to_chars};

verus! {

/// Why a selector names no record.
#[derive(Clone, Debug, PartialEq, Eq)]
pub enum ResolveError {
    /// No record has a name that is, or begins with, the selector.
    NotFound(String),
    /// Several records have a name that begins with the selector; `matches`
    /// holds the readable identifier of each.
    Ambiguous { selector: String, matches: Vec<String> },
}

/// Why a selector names no project.
#[derive(Clone, Debug, PartialEq, Eq)]
pub enum ResolveProjectError {
    /// No project has a name that is, or begins with, the selector.
    NotFound(String),
    /// Several projects have a name that begins with the selector; `matches`
    /// holds the readable identifier of each.
    Ambiguous { selector: String, matches: Vec<String> },
}

/// What looking up a selector comes to.
pub enum Resolution {
    Found(Seq<char>),
    NotFound(Seq<char>),
    Ambiguous(Seq<char>, Seq<Seq<char>>),
}

/// The name of a record or project that a stage looks at: the stable
/// identifier or the readable one. A name is the pair of the two, the stable
/// identifier first.
pub open spec fn key_of(name: (Seq<char>, Seq<char>), stable: bool) -> Seq<char> {
    if stable {
        name.0
    } else {
        name.1
    }
}

/// The first position at or after `i` whose name equals the selector, or the
/// length of `names` where there is none.
pub open spec fn find_exact(
    names: Seq<(Seq<char>, Seq<char>)>,
    selector: Seq<char>,
    stable: bool,
    i: int,
) -> int
    decreases names.len() - i,
{
    if i < 0 || i >= names.len() {
        names.len() as int
    } else if key_of(names[i], stable) == selector {
        i
    } else {
        find_exact(names, selector, stable, i + 1)
    }
}

/// The readable identifiers of those whose name begins with the selector,
/// in order.
pub open spec fn with_prefix(
    names: Seq<(Seq<char>, Seq<char>)>,
    selector: Seq<char>,
    stable: bool,
) -> Seq<Seq<char>>
    decreases names.len(),
{
    if names.len() == 0 {
        Seq::empty()
    } else {
        let rest = with_prefix(names.drop_last(), selector, stable);
        if starts_with(key_of(names.last(), stable), selector) {
            rest.push(names.last().1)
        } else {
            rest
        }
    }
}

/// What the selector resolves to among `names`.
pub open spec fn resolution(selector: Seq<char>, names: Seq<(Seq<char>, Seq<char>)>) -> Resolution {
    let stable_exact = find_exact(names, selector, true, 0);
    let stable_prefixed = with_prefix(names, selector, true);
    let readable_exact = find_exact(names, selector, false, 0);
    let readable_prefixed = with_prefix(names, selector, false);
    if stable_exact < names.len() {
        Resolution::Found(names[stable_exact].1)
    } else if stable_prefixed.len() == 1 {
        Resolution::Found(stable_prefixed[0])
    } else if stable_prefixed.len() > 1 {
        Resolution::Ambiguous(selector, stable_prefixed)
    } else if readable_exact < names.len() {
        Resolution::Found(names[readable_exact].1)
    } else if readable_prefixed.len() == 1 {
        Resolution::Found(readable_prefixed[0])
    } else if readable_prefixed.len() > 1 {
        Resolution::Ambiguous(selector, readable_prefixed)
    } else {
        Resolution::NotFound(selector)
    }
}

/// What a result of resolving a record says.
pub open spec fn verdict(r: Result<String, ResolveError>) -> Resolution {
    match r {
        Ok(id) => Resolution::Found(id@),
        Err(ResolveError::NotFound(selector)) => Resolution::NotFound(selector@),
        Err(ResolveError::Ambiguous { selector, matches }) => Resolution::Ambiguous(
            selector@,
            texts(matches@),
        ),
    }
}

/// What a result of resolving a project says.
pub open spec fn project_verdict(r: Result<String, ResolveProjectError>) -> Resolution {
    match r {
        Ok(id) => Resolution::Found(id@),
        Err(ResolveProjectError::NotFound(selector)) => Resolution::NotFound(selector@),
        Err(ResolveProjectError::Ambiguous { selector, matches }) => Resolution::Ambiguous(
            selector@,
            texts(matches@),
        ),
    }
}

/// The names of a sequence of records.
pub open spec fn reference_names(refs: Seq<Reference>) -> Seq<(Seq<char>, Seq<char>)> {
    Seq::new(refs.len(), |i: int| (refs[i].sid@, refs[i].id@))
}

/// The names of a sequence of projects.
pub open spec fn project_names(all: Seq<Project>) -> Seq<(Seq<char>, Seq<char>)> {
    Seq::new(all.len(), |i: int| (all[i].sid@, all[i].id@))
}

fn find_exact_in(names: &Vec<(String, String)>, selector: &str, stable: bool) -> (at: usize)
    ensures
        at == find_exact(text_pairs(names@), selector@, stable, 0),
        at <= names.len(),
{
    let mut i: usize = 0;
    while i < names.len()
        invariant
            i <= names.len(),
            find_exact(text_pairs(names@), selector@, stable, 0) == find_exact(
                text_pairs(names@),
                selector@,
                stable,
                i as int,
            ),
        decreases names.len() - i,
    {
        let key = if stable {
            names[i].0.as_str()
        } else {
            names[i].1.as_str()
        };
        if same_text(key, selector) {
            return i;
        }
        i += 1;
    }
    i
}

fn with_prefix_in(names: &Vec<(String, String)>, selector: &str, stable: bool) -> (out: Vec<
    String,
>)
    ensures
        texts(out@) == with_prefix(text_pairs(names@), selector@, stable),
{
    let sel = to_chars(selector);
    let mut out: Vec<String> = Vec::new();
    let mut i: usize = 0;
    let ghost all = text_pairs(names@);
    assert(all.take(0) =~= Seq::empty());
    assert(texts(out@) =~= Seq::<Seq<char>>::empty());
    while i < names.len()
        invariant
            i <= names.len(),
            sel@ == selector@,
            all == text_pairs(names@),
            texts(out@) == with_prefix(all.take(i as int), selector@, stable),
        decreases names.len() - i,
    {
        proof {
            assert(all.take(i + 1).drop_last() =~= all.take(i as int));
            assert(all.take(i + 1).last() == (names@[i as int].0@, names@[i as int].1@));
        }
        let key = if stable {
            to_chars(names[i].0.as_str())
        } else {
            to_chars(names[i].1.as_str())
        };
        if has_prefix(&key, &sel) {
            let ghost before = texts(out@);
            let id = names[i].1.clone();
            out.push(id);
            assert(texts(out@) =~= before.push(names@[i as int].1@));
        }
        i += 1;
    }
    assert(all.take(names.len() as int) =~= all);
    out
}

/// Resolves a selector among names, each the pair of a stable and a
/// readable identifier.
pub fn resolve_among(selector: &str, names: &Vec<(String, String)>) -> (r: Result<
    String,
    ResolveError,
>)
    ensures
        verdict(r) == resolution(selector@, text_pairs(names@)),
{
    let stable_exact = find_exact_in(names, selector, true);
    if stable_exact < names.len() {
        return Ok(names[stable_exact].1.clone());
    }
    let stable_prefixed = with_prefix_in(names, selector, true);
    if stable_prefixed.len() == 1 {
        let id = stable_prefixed[0].clone();
        return Ok(id);
    }
    if stable_prefixed.len() > 1 {
        return Err(ResolveError::Ambiguous { selector: selector.to_owned(), matches: stable_prefixed });
    }
    let readable_exact = find_exact_in(names, selector, false);
    if readable_exact < names.len() {
        return Ok(names[readable_exact].1.clone());
    }
    let readable_prefixed = with_prefix_in(names, selector, false);
    if readable_prefixed.len() == 1 {
        let id = readable_prefixed[0].clone();
        return Ok(id);
    }
    if readable_prefixed.len() > 1 {
        return Err(
            ResolveError::Ambiguous { selector: selector.to_owned(), matches: readable_prefixed },
        );
    }
    Err(ResolveError::NotFound(selector.to_owned()))
}

/// Resolves a selector to the readable identifier of one of the records.
pub fn resolve_reference(selector: &str, refs: &Vec<Reference>) -> (r: Result<String, ResolveError>)
    ensures
        verdict(r) == resolution(selector@, reference_names(refs@)),
{
    let mut names: Vec<(String, String)> = Vec::new();
    let mut i: usize = 0;
    assert(text_pairs(names@) =~= reference_names(refs@).take(0));
    while i < refs.len()
        invariant
            i <= refs.len(),
            text_pairs(names@) == reference_names(refs@).take(i as int),
        decreases refs.len() - i,
    {
        let ghost before = text_pairs(names@);
        let sid = refs[i].sid.clone();
        let id = refs[i].id.clone();
        names.push((sid, id));
        assert(text_pairs(names@) =~= before.push((sid@, id@)));
        i += 1;
        assert(text_pairs(names@) =~= reference_names(refs@).take(i as int));
    }
    assert(reference_names(refs@).take(refs.len() as int) =~= reference_names(refs@));
    resolve_among(selector, &names)
}

/// Resolves a selector to the readable identifier of one of the projects.
pub fn resolve_project(selector: &str, all: &Vec<Project>) -> (r: Result<
    String,
    ResolveProjectError,
>)
    ensures
        project_verdict(r) == resolution(selector@, project_names(all@)),
{
    let mut names: Vec<(String, String)> = Vec::new();
    let mut i: usize = 0;
    assert(text_pairs(names@) =~= project_names(all@).take(0));
    while i < all.len()
        invariant
            i <= all.len(),
            text_pairs(names@) == project_names(all@).take(i as int),
        decreases all.len() - i,
    {
        let ghost before = text_pairs(names@);
        let sid = all[i].sid.clone();
        let id = all[i].id.clone();
        names.push((sid, id));
        assert(text_pairs(names@) =~= before.push((sid@, id@)));
        i += 1;
        assert(text_pairs(names@) =~= project_names(all@).take(i as int));
    }
    assert(project_names(all@).take(all.len() as int) =~= project_names(all@));
    match resolve_among(selector, &names) {
        Ok(id) => Ok(id),
        Err(ResolveError::NotFound(s)) => Err(ResolveProjectError::NotFound(s)),
        Err(ResolveError::Ambiguous { selector, matches }) => Err(
            ResolveProjectError::Ambiguous { selector, matches },
        ),
    }
}

/// `find_exact` gives the first position that holds the selector, where
/// there is one.
proof fn lemma_find_exact(
    names: Seq<(Seq<char>, Seq<char>)>,
    selector: Seq<char>,
    stable: bool,
    i: int,
    a: int,
)
    requires
        0 <= i <= a < names.len(),
        key_of(names[a], stable) == selector,
        forall|j: int| i <= j < a ==> key_of(#[trigger] names[j], stable) != selector,
    ensures
        find_exact(names, selector, stable, i) == a,
    decreases a - i,
{
    if i < a {
        lemma_find_exact(names, selector, stable, i + 1, a);
    }
}

/// A stable identifier that equals the selector decides, whatever else the
/// selector is a beginning of: where record `a` is the first whose stable
/// identifier is the selector, the selector resolves to the readable
/// identifier of `a`.
pub proof fn lemma_exact_stable_id_wins(
    selector: Seq<char>,
    names: Seq<(Seq<char>, Seq<char>)>,
    a: int,
)
    requires
        0 <= a < names.len(),
        names[a].0 == selector,
        forall|j: int| 0 <= j < a ==> (#[trigger] names[j]).0 != selector,
    ensures
        resolution(selector, names) == Resolution::Found(names[a].1),
{
    lemma_find_exact(names, selector, true, 0, a);
}

/// Whether the selector is the beginning of a name of one of `names`, stable
/// or readable.
pub open spec fn begins_a_name(selector: Seq<char>, names: Seq<(Seq<char>, Seq<char>)>) -> bool {
    exists|i: int|
        0 <= i < names.len() && (starts_with((#[trigger] names[i]).0, selector) || starts_with(
            names[i].1,
            selector,
        ))
}

proof fn lemma_with_prefix_empty(
    names: Seq<(Seq<char>, Seq<char>)>,
    selector: Seq<char>,
    stable: bool,
)
    ensures
        with_prefix(names, selector, stable).len() == 0 <==> forall|i: int|
            0 <= i < names.len() ==> !starts_with(key_of(#[trigger] names[i], stable), selector),
    decreases names.len(),
{
    if names.len() > 0 {
        let head = names.drop_last();
        lemma_with_prefix_empty(head, selector, stable);
        assert forall|i: int| 0 <= i < head.len() implies head[i] == names[i] by {}
        if with_prefix(names, selector, stable).len() == 0 {
            assert forall|i: int| 0 <= i < names.len() implies !starts_with(
                key_of(#[trigger] names[i], stable),
                selector,
            ) by {
                if i < head.len() {
                    assert(head[i] == names[i]);
                }
            }
        } else if !starts_with(key_of(names.last(), stable), selector) {
            let i = choose|i: int|
                0 <= i < head.len() && starts_with(key_of(#[trigger] head[i], stable), selector);
            assert(names[i] == head[i]);
        } else {
            assert(names[names.len() - 1] == names.last());
        }
    }
}

proof fn lemma_find_exact_found(
    names: Seq<(Seq<char>, Seq<char>)>,
    selector: Seq<char>,
    stable: bool,
    i: int,
)
    requires
        0 <= i <= names.len(),
    ensures
        i <= find_exact(names, selector, stable, i) <= names.len(),
        find_exact(names, selector, stable, i) < names.len() ==> key_of(
            names[find_exact(names, selector, stable, i)],
            stable,
        ) == selector,
    decreases names.len() - i,
{
    if i < names.len() && key_of(names[i], stable) != selector {
        lemma_find_exact_found(names, selector, stable, i + 1);
    }
}

/// A selector is not found exactly where it is the beginning of no name,
/// stable or readable, of any record.
pub proof fn lemma_not_found_iff_begins_no_name(
    selector: Seq<char>,
    names: Seq<(Seq<char>, Seq<char>)>,
)
    ensures
        resolution(selector, names) is NotFound <==> !begins_a_name(selector, names),
        resolution(selector, names) is NotFound ==> resolution(selector, names)
            == Resolution::NotFound(selector),
{
    lemma_with_prefix_empty(names, selector, true);
    lemma_with_prefix_empty(names, selector, false);
    lemma_find_exact_found(names, selector, true, 0);
    lemma_find_exact_found(names, selector, false, 0);
    let s = find_exact(names, selector, true, 0);
    let r = find_exact(names, selector, false, 0);
    if s < names.len() {
        assert(names[s].0.subrange(0, selector.len() as int) =~= selector);
        assert(starts_with(key_of(names[s], true), selector));
    }
    if r < names.len() {
        assert(names[r].1.subrange(0, selector.len() as int) =~= selector);
        assert(starts_with(key_of(names[r], false), selector));
    }
    if begins_a_name(selector, names) {
        let i = choose|i: int|
            0 <= i < names.len() && (starts_with((#[trigger] names[i]).0, selector) || starts_with(
                names[i].1,
                selector,
            ));
        assert(starts_with(key_of(names[i], true), selector) || starts_with(
            key_of(names[i], false),
            selector,
        ));
    }
}

/// An ambiguity names at least two candidates.
pub proof fn lemma_ambiguity_has_candidates(
    selector: Seq<char>,
    names: Seq<(Seq<char>, Seq<char>)>,
)
    ensures
        resolution(selector, names) matches Resolution::Ambiguous(s, candidates) ==> s == selector
            && candidates.len() >= 2,
{
}

} // verus!
