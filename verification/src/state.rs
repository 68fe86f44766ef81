//! Where the registry lives, and which project is active.

use vstd::prelude::*;
use vstd::string::StringSliceAdditionalSpecFns;
use crate::text::{append, append_text, from_chars, opt_text, same_text, to_chars};

verus! {

/// The name of the directory that holds the registry.
pub const ELAINE_DIR: &'static str = ".elaine";

/// The index of the registry: the project that commands work on when none is
/// named.
#[derive(Clone, Debug, PartialEq, Eq)]
pub struct Index {
    pub active_project: Option<String>,
}

impl Default for Index {
    fn default() -> (r: Index)
        ensures
            r.active_project is None,
    {
        Index { active_project: None }
    }
}

impl Index {
    /// Whether `project_id` is the active project.
    pub open spec fn is_active(&self, project_id: Seq<char>) -> bool {
        opt_text(self.active_project) == Some(project_id)
    }
}

/// The path of the registry directory, relative to the working directory.
pub fn elaine_dir() -> (dir: String)
    ensures
        dir@ == ".elaine"@,
{
    ".elaine".to_owned()
}

impl Index {
    /// Makes `project_id` the active project.
    pub fn activate(&mut self, project_id: &str)
        ensures
            opt_text(final(self).active_project) == Some(project_id@),
    {
        self.active_project = Some(project_id.to_owned());
    }

    /// Forgets the active project where it is `project_id`, and tells
    /// whether it was.
    pub fn forget(&mut self, project_id: &str) -> (was_active: bool)
        ensures
            was_active == old(self).is_active(project_id@),
            opt_text(final(self).active_project) == if was_active {
                None
            } else {
                opt_text(old(self).active_project)
            },
    {
        let was_active = match &self.active_project {
            Some(p) => same_text(p.as_str(), project_id),
            None => false,
        };
        if was_active {
            self.active_project = None;
        }
        was_active
    }
}

/// The path made of a directory, a file name without extension and an
/// extension.
pub open spec fn file_in(dir: Seq<char>, stem: Seq<char>, extension: Seq<char>) -> Seq<char> {
    dir + "/"@ + stem + "."@ + extension
}

fn file_path(dir: &str, stem: &str, extension: &str) -> (path: String)
    ensures
        path@ == file_in(dir@, stem@, extension@),
{
    let mut out = to_chars(dir);
    append_text(&mut out, "/");
    append_text(&mut out, stem);
    append_text(&mut out, ".");
    append_text(&mut out, extension);
    from_chars(&out)
}

/// The directory that holds one file for each record.
pub fn refs_dir() -> (dir: String)
    ensures
        dir@ == ".elaine/refs"@,
{
    ".elaine/refs".to_owned()
}

/// The file of the record `ref_id`.
pub fn ref_path(ref_id: &str) -> (path: String)
    ensures
        path@ == file_in(".elaine/refs"@, ref_id@, "yaml"@),
{
    file_path(".elaine/refs", ref_id, "yaml")
}

/// The directory that holds one file for each project.
pub fn projects_dir() -> (dir: String)
    ensures
        dir@ == ".elaine/projects"@,
{
    ".elaine/projects".to_owned()
}

/// The file of the project `project_id`.
pub fn project_path(project_id: &str) -> (path: String)
    ensures
        path@ == file_in(".elaine/projects"@, project_id@, "yaml"@),
{
    file_path(".elaine/projects", project_id, "yaml")
}

/// Whether a stable identifier read from a file is too short to be one, so
/// that the record or project is given a fresh one: it has fewer than 16
/// bytes.
pub fn needs_sid(sid: &str) -> (r: bool)
    ensures
        r == (sid.spec_bytes().len() < 16),
{
    sid.as_bytes().len() < 16
}

/// The path of the index file: `index.yaml` in the registry directory.
pub fn index_path() -> (path: String)
    ensures
        path@ == ".elaine"@ + "/"@ + "index.yaml"@,
{
    let mut out = to_chars(".elaine");
    append(&mut out, &to_chars("/"));
    append(&mut out, &to_chars("index.yaml"));
    from_chars(&out)
}

} // verus!
