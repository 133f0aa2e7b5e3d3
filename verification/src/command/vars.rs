//! The vars command table: help, read, write.

use vstd::prelude::*;
use crate::shell::command::{Action, Command};

pub mod help;

verus! {

/// The vars commands: two help names, the read command and the write
/// command.
pub fn commands() -> (cs: Vec<Command>)
    ensures
        cs@.len() == 4,
        cs@[0].name@ == "v"@ && cs@[0].action == Action::VarsHelp,
        cs@[1].name@ == "vh"@ && cs@[1].action == Action::VarsHelp,
        cs@[2].name@ == "vr"@ && cs@[2].action == Action::VarsRefer,
        cs@[3].name@ == "vm"@ && cs@[3].action == Action::VarsModify,
{
    let mut cs: Vec<Command> = Vec::new();
    cs.push(Command::new("v", Action::VarsHelp));
    cs.push(Command::new("vh", Action::VarsHelp));
    cs.push(Command::new("vr", Action::VarsRefer));
    cs.push(Command::new("vm", Action::VarsModify));
    cs
}

} // verus!
