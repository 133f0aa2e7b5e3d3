//! The console's command table.

use vstd::prelude::*;
use crate::shell::command::{Action, Command};

verus! {

/// The commands the console offers: the vars dispatcher, and the
/// workspace commands.
pub fn commands() -> (cs: Vec<Command>)
    ensures
        cs@.len() == 4,
        cs@[0].name@ == "v"@ && cs@[0].action == Action::Vars,
        cs@[1].name@ == "init"@ && cs@[1].action == Action::InitWorkspace,
        cs@[2].name@ == "use"@ && cs@[2].action == Action::UseWorkspace,
        cs@[3].name@ == "clean"@ && cs@[3].action == Action::CleanWorkspace,
{
    let mut cs: Vec<Command> = Vec::new();
    cs.push(Command::new("v", Action::Vars));
    cs.push(Command::new("init", Action::InitWorkspace));
    cs.push(Command::new("use", Action::UseWorkspace));
    cs.push(Command::new("clean", Action::CleanWorkspace));
    cs
}

} // verus!
