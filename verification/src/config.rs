//! The application's configuration: where its files live under the
//! home directory, and the dynamic settings that change while it
//! runs.
//!
//! Only the path arithmetic and the configuration values live here;
//! reading and writing the files, and asking the system for the home
//! directory, is the surrounding program's work.

use vstd::prelude::*;
use vstd::string::StringExecFns;

verus! {

/// `base` and `name` joined with one path separator.
pub open spec fn path_join(base: Seq<char>, name: Seq<char>) -> Seq<char> {
    base + seq!['/'] + name
}

/// Joins a directory path and an entry name.
pub fn join_path(base: &str, name: &str) -> (r: String)
    ensures
        r@ == path_join(base@, name@),
{
    let mut r = String::from_str(base);
    r.push('/');
    r.append(name);
    r
}

/// Settings that change while the application runs, persisted in the
/// dynamic configuration file.
#[derive(Debug, PartialEq, Eq)]
pub struct DynamicConfig {
    /// Path of the workspace commands currently work on; empty when
    /// none was chosen yet.
    pub current_workspace: String,
}

/// Where the application's own files live, and the current dynamic
/// settings.
pub struct AppConfig {
    /// The configuration directory under the home directory.
    pub app_conf_path: String,
    /// The dynamic configuration file inside it.
    pub dyn_conf_path: String,
    /// The shell history file inside it.
    pub shell_hist_path: String,
    pub dyn_conf: DynamicConfig,
}

impl AppConfig {
    /// The configuration paths under the given home directory,
    /// holding the given dynamic settings.  Creating or reading the
    /// files themselves is the caller's work; the settings it read
    /// are handed in here.
    pub fn assemble(home: &str, dyn_conf: DynamicConfig) -> (c: AppConfig)
        ensures
            c.app_conf_path@ == path_join(home@, ".pwnrail"@),
            c.dyn_conf_path@ == path_join(path_join(home@, ".pwnrail"@), "dynamic_config.toml"@),
            c.shell_hist_path@ == path_join(path_join(home@, ".pwnrail"@), "shell_history"@),
            c.dyn_conf == dyn_conf,
    {
        let app_conf_path = join_path(home, ".pwnrail");
        let dyn_conf_path = join_path(app_conf_path.as_str(), "dynamic_config.toml");
        let shell_hist_path = join_path(app_conf_path.as_str(), "shell_history");
        AppConfig { app_conf_path, dyn_conf_path, shell_hist_path, dyn_conf }
    }
}

/// The files that make a directory a workspace.
pub struct Workspace {
    /// The marker directory.
    pub mgr_path: String,
    /// The file the vars commands read and write.
    pub vars_path: String,
}

impl Workspace {
    /// The workspace file paths under the given directory.
    pub fn assemble_struct(path: &str) -> (w: Workspace)
        ensures
            w.mgr_path@ == path_join(path@, ".prail"@),
            w.vars_path@ == path_join(path@, "vars.json"@),
    {
        let mgr_path = join_path(path, ".prail");
        let vars_path = join_path(path, "vars.json");
        Workspace { mgr_path, vars_path }
    }
}

} // verus!
