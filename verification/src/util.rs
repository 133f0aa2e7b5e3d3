//! Paths of the older global environment layout (`.pentenv`), and the
//! plan for initializing it.  All functions here compute paths from a
//! given home directory; the surrounding program touches the disk.

use vstd::prelude::*;
use crate::config::{join_path, path_join};

verus! {

/// Kinds of file-system entries the initialization plan asks for.
#[derive(Clone, Copy, Debug, PartialEq, Eq, Structural)]
pub enum EntryKind {
    Dir,
    File,
}

/// One entry the global initialization wants to exist: a path and
/// what kind of entry should stand there.
#[derive(Debug, PartialEq, Eq)]
pub struct PlannedEntry {
    pub path: String,
    pub kind: EntryKind,
}

/// The global configuration directory under the home directory.
pub fn gconfig_dir_path(home: &str) -> (r: String)
    ensures
        r@ == path_join(home@, ".pentenv"@),
{
    join_path(home, ".pentenv")
}

/// The file that records which workspace is current.
pub fn current_ws_mgr_path(home: &str) -> (r: String)
    ensures
        r@ == path_join(path_join(home@, ".pentenv"@), "current"@),
{
    let g = gconfig_dir_path(home);
    join_path(g.as_str(), "current")
}

/// The shell history file.
pub fn history_file_path(home: &str) -> (r: String)
    ensures
        r@ == path_join(path_join(home@, ".pentenv"@), "history"@),
{
    let g = gconfig_dir_path(home);
    join_path(g.as_str(), "history")
}

/// The vars file inside a workspace's base directory.
pub fn vars_file_path(base: &str) -> (r: String)
    ensures
        r@ == path_join(base@, "vars.json"@),
{
    join_path(base, "vars.json")
}

/// The environment directory a workspace keeps under its root.
pub fn env_dir_path(root: &str) -> (r: String)
    ensures
        r@ == path_join(root@, ".ptv"@),
{
    join_path(root, ".ptv")
}

/// The plan for initializing the global configuration: the directory
/// and the two files that must exist, in the order they are created.
/// The caller creates each entry that does not exist yet.
pub fn ginit(home: &str) -> (plan: Vec<PlannedEntry>)
    ensures
        plan@.len() == 3,
        plan@[0].kind == EntryKind::Dir,
        plan@[0].path@ == path_join(home@, ".pentenv"@),
        plan@[1].kind == EntryKind::File,
        plan@[1].path@ == path_join(path_join(home@, ".pentenv"@), "current"@),
        plan@[2].kind == EntryKind::File,
        plan@[2].path@ == path_join(path_join(home@, ".pentenv"@), "history"@),
{
    let mut plan: Vec<PlannedEntry> = Vec::new();
    plan.push(PlannedEntry { path: gconfig_dir_path(home), kind: EntryKind::Dir });
    plan.push(PlannedEntry { path: current_ws_mgr_path(home), kind: EntryKind::File });
    plan.push(PlannedEntry { path: history_file_path(home), kind: EntryKind::File });
    plan
}

} // verus!
