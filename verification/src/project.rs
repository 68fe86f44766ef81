//! Projects: named lists of the records pinned to them.

use vstd::prelude::*;
use crate::text::{opt_text, same_text, texts};

verus! {

/// A project: a named list of records.
#[derive(Clone, Debug, PartialEq, Eq)]
pub struct Project {
    pub id: String,
    pub sid: String,
    pub title: Option<String>,
    /// The identifiers of the records pinned to the project, in the order in
    /// which they were pinned.
    pub refs: Vec<String>,
}

/// What a `Project` value holds.
pub struct ProjectView {
    pub id: Seq<char>,
    pub sid: Seq<char>,
    pub title: Option<Seq<char>>,
    pub refs: Seq<Seq<char>>,
}

impl View for Project {
    type V = ProjectView;

    open spec fn view(&self) -> ProjectView {
        ProjectView {
            id: self.id@,
            sid: self.sid@,
            title: opt_text(self.title),
            refs: texts(self.refs@),
        }
    }
}

/// The views of a sequence of projects.
pub open spec fn projects(v: Seq<Project>) -> Seq<ProjectView> {
    Seq::new(v.len(), |i: int| v[i]@)
}

/// `refs` with every occurrence of `old_id` replaced by `new_id`.
pub open spec fn renamed(refs: Seq<Seq<char>>, old_id: Seq<char>, new_id: Seq<char>) -> Seq<
    Seq<char>,
> {
    Seq::new(
        refs.len(),
        |i: int|
            if refs[i] == old_id {
                new_id
            } else {
                refs[i]
            },
    )
}

/// `refs` without the occurrences of `id`.
pub open spec fn without(refs: Seq<Seq<char>>, id: Seq<char>) -> Seq<Seq<char>> {
    refs.filter(|r: Seq<char>| r != id)
}

/// Whether one of the projects has `id` pinned.
pub open spec fn pinned_somewhere(all: Seq<ProjectView>, id: Seq<char>) -> bool {
    exists|p: int| 0 <= p < all.len() && (#[trigger] all[p]).refs.contains(id)
}

/// The records of `all_refs` that no project has pinned, in order.
pub open spec fn orphans(all: Seq<ProjectView>, all_refs: Seq<Seq<char>>) -> Seq<Seq<char>> {
    all_refs.filter(|r: Seq<char>| !pinned_somewhere(all, r))
}

/// Whether `list` holds `id`.
pub fn holds(list: &Vec<String>, id: &str) -> (r: bool)
    ensures
        r == texts(list@).contains(id@),
{
    let mut i: usize = 0;
    while i < list.len()
        invariant
            i <= list.len(),
            forall|j: int| 0 <= j < i ==> texts(list@)[j] != id@,
        decreases list.len() - i,
    {
        if same_text(list[i].as_str(), id) {
            assert(texts(list@)[i as int] == id@);
            return true;
        }
        i += 1;
    }
    false
}

impl Project {
    /// A project without title and without records.
    pub fn new(id: &str, sid: String) -> (p: Project)
        ensures
            p@ == (ProjectView { id: id@, sid: sid@, title: None, refs: Seq::empty() }),
    {
        let p = Project { id: id.to_owned(), sid, title: None, refs: Vec::new() };
        assert(p@.refs =~= Seq::empty());
        p
    }

    /// Whether the record `ref_id` is pinned to the project.
    pub fn has_ref(&self, ref_id: &str) -> (r: bool)
        ensures
            r == self@.refs.contains(ref_id@),
    {
        holds(&self.refs, ref_id)
    }

    /// Pins the record `ref_id` to the project unless it is pinned already,
    /// and tells whether it was added.
    pub fn pin(&mut self, ref_id: &str) -> (added: bool)
        ensures
            added == !old(self)@.refs.contains(ref_id@),
            final(self)@ == (ProjectView {
                refs: if added {
                    old(self)@.refs.push(ref_id@)
                } else {
                    old(self)@.refs
                },
                ..old(self)@
            }),
    {
        if holds(&self.refs, ref_id) {
            false
        } else {
            let ghost before = texts(self.refs@);
            self.refs.push(ref_id.to_owned());
            assert(texts(self.refs@) =~= before.push(ref_id@));
            true
        }
    }

    /// Removes the record `ref_id` from the project, and tells whether it
    /// was pinned.
    pub fn unpin(&mut self, ref_id: &str) -> (removed: bool)
        ensures
            removed == old(self)@.refs.contains(ref_id@),
            final(self)@ == (ProjectView { refs: without(old(self)@.refs, ref_id@), ..old(self)@ }),
    {
        let mut kept: Vec<String> = Vec::new();
        let mut removed = false;
        let mut i: usize = 0;
        let ghost all = texts(self.refs@);
        let ghost keep = |r: Seq<char>| r != ref_id@;
        proof {
            reveal(Seq::filter);
            assert(all.take(0).filter(keep) =~= Seq::<Seq<char>>::empty());
            assert(texts(kept@) =~= Seq::<Seq<char>>::empty());
        }
        while i < self.refs.len()
            invariant
                i <= self.refs.len(),
                all == texts(self.refs@),
                keep == (|r: Seq<char>| r != ref_id@),
                texts(kept@) == all.take(i as int).filter(keep),
                removed == all.take(i as int).contains(ref_id@),
            decreases self.refs.len() - i,
        {
            proof {
                assert(all.take(i + 1).drop_last() =~= all.take(i as int));
                assert(all.take(i + 1).last() == self.refs@[i as int]@);
                assert(all.take(i + 1) =~= all.take(i as int).push(all[i as int]));
                vstd::seq_lib::lemma_seq_contains_after_push(
                    all.take(i as int),
                    all[i as int],
                    ref_id@,
                );
                reveal(Seq::filter);
            }
            if same_text(self.refs[i].as_str(), ref_id) {
                removed = true;
            } else {
                let ghost before = texts(kept@);
                let item = self.refs[i].clone();
                kept.push(item);
                assert(texts(kept@) =~= before.push(all[i as int]));
            }
            i += 1;
        }
        assert(all.take(self.refs.len() as int) =~= all);
        self.refs = kept;
        removed
    }

    /// Replaces `old_id` by `new_id` wherever it is pinned, and tells
    /// whether anything changed.
    pub fn rename_ref(&mut self, old_id: &str, new_id: &str) -> (changed: bool)
        ensures
            changed == old(self)@.refs.contains(old_id@),
            final(self)@ == (ProjectView {
                refs: renamed(old(self)@.refs, old_id@, new_id@),
                ..old(self)@
            }),
    {
        let mut out: Vec<String> = Vec::new();
        let mut changed = false;
        let mut i: usize = 0;
        let ghost all = texts(self.refs@);
        assert(texts(out@) =~= renamed(all, old_id@, new_id@).take(0));
        while i < self.refs.len()
            invariant
                i <= self.refs.len(),
                all == texts(self.refs@),
                texts(out@) == renamed(all, old_id@, new_id@).take(i as int),
                changed == all.take(i as int).contains(old_id@),
            decreases self.refs.len() - i,
        {
            let ghost before = texts(out@);
            proof {
                assert(all.take(i + 1) =~= all.take(i as int).push(all[i as int]));
                assert(all[i as int] == self.refs@[i as int]@);
                vstd::seq_lib::lemma_seq_contains_after_push(
                    all.take(i as int),
                    all[i as int],
                    old_id@,
                );
            }
            if same_text(self.refs[i].as_str(), old_id) {
                out.push(new_id.to_owned());
                changed = true;
                assert(texts(out@) =~= before.push(new_id@));
            } else {
                let item = self.refs[i].clone();
                out.push(item);
                assert(texts(out@) =~= before.push(all[i as int]));
            }
            i += 1;
            assert(texts(out@) =~= renamed(all, old_id@, new_id@).take(i as int));
        }
        assert(all.take(self.refs.len() as int) =~= all);
        assert(renamed(all, old_id@, new_id@).take(self.refs.len() as int) =~= renamed(
            all,
            old_id@,
            new_id@,
        ));
        self.refs = out;
        changed
    }
}

/// Whether one of the projects has `id` pinned.
pub fn is_pinned_somewhere(all: &[Project], id: &str) -> (r: bool)
    ensures
        r == pinned_somewhere(projects(all@), id@),
{
    let mut p: usize = 0;
    while p < all.len()
        invariant
            p <= all.len(),
            forall|q: int| 0 <= q < p ==> !(#[trigger] projects(all@)[q]).refs.contains(id@),
        decreases all.len() - p,
    {
        if all[p].has_ref(id) {
            assert(projects(all@)[p as int].refs.contains(id@));
            return true;
        }
        p += 1;
    }
    false
}

/// The records of `all_refs` that no project has pinned, in order.
pub fn compute_orphans(all: &[Project], all_refs: &[String]) -> (out: Vec<String>)
    ensures
        texts(out@) == orphans(projects(all@), texts(all_refs@)),
{
    let mut out: Vec<String> = Vec::new();
    let mut i: usize = 0;
    let ghost ids = texts(all_refs@);
    let ghost keep = |r: Seq<char>| !pinned_somewhere(projects(all@), r);
    proof {
        reveal(Seq::filter);
        assert(ids.take(0).filter(keep) =~= Seq::<Seq<char>>::empty());
        assert(texts(out@) =~= Seq::<Seq<char>>::empty());
    }
    while i < all_refs.len()
        invariant
            i <= all_refs.len(),
            ids == texts(all_refs@),
            keep == (|r: Seq<char>| !pinned_somewhere(projects(all@), r)),
            texts(out@) == ids.take(i as int).filter(keep),
        decreases all_refs.len() - i,
    {
        proof {
            assert(ids.take(i + 1).drop_last() =~= ids.take(i as int));
            assert(ids.take(i + 1).last() == all_refs@[i as int]@);
            reveal(Seq::filter);
        }
        if !is_pinned_somewhere(all, all_refs[i].as_str()) {
            let ghost before = texts(out@);
            let item = all_refs[i].clone();
            out.push(item);
            assert(texts(out@) =~= before.push(ids[i as int]));
        }
        i += 1;
    }
    assert(ids.take(all_refs.len() as int) =~= ids);
    out
}

} // verus!
