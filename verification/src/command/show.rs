//! The command that shows the current workspace.

use vstd::prelude::*;
use crate::shell::command::{Action, Command};

verus! {

/// The table entry for showing the current workspace path.
pub fn commands() -> (cs: Vec<Command>)
    ensures
        cs@.len() == 1,
        cs@[0].name@ == "scw"@,
        cs@[0].action == Action::ShowCurrentWorkspace,
{
    let mut cs: Vec<Command> = Vec::new();
    cs.push(Command::new("scw", Action::ShowCurrentWorkspace));
    cs
}

/// The text the `scw` command shows: the current workspace path as
/// the configuration holds it.
pub fn show_current_workspace(app_conf: &crate::config::AppConfig) -> (r: String)
    ensures
        r@ == app_conf.dyn_conf.current_workspace@,
{
    app_conf.dyn_conf.current_workspace.clone()
}

} // verus!
