//! The top-level command table: workspace commands first, then the
//! vars commands.

use vstd::prelude::*;
use crate::shell::command::{Action, Command};

verus! {

/// All commands the shell starts with: `use` and `init`, then the
/// vars commands.
pub fn commands() -> (cs: Vec<Command>)
    ensures
        cs@.len() == 6,
        cs@[0].name@ == "use"@ && cs@[0].action == Action::UseWorkspace,
        cs@[1].name@ == "init"@ && cs@[1].action == Action::InitWorkspace,
        cs@[2].name@ == "v"@ && cs@[2].action == Action::VarsHelp,
        cs@[3].name@ == "vh"@ && cs@[3].action == Action::VarsHelp,
        cs@[4].name@ == "vr"@ && cs@[4].action == Action::VarsRefer,
        cs@[5].name@ == "vm"@ && cs@[5].action == Action::VarsModify,
{
    let mut cs: Vec<Command> = Vec::new();
    cs.push(Command::new("use", Action::UseWorkspace));
    cs.push(Command::new("init", Action::InitWorkspace));
    let vars_commands = crate::command::vars::commands();
    let mut k: usize = 0;
    while k < vars_commands.len()
        invariant
            k <= vars_commands@.len(),
            vars_commands@.len() == 4,
            cs@.len() == 2 + k,
            cs@[0].name@ == "use"@ && cs@[0].action == Action::UseWorkspace,
            cs@[1].name@ == "init"@ && cs@[1].action == Action::InitWorkspace,
            forall|i: int| 0 <= i < k ==> cs@[2 + i] == vars_commands@[i],
        decreases vars_commands@.len() - k,
    {
        let c = Command {
            name: vars_commands[k].name.clone(),
            action: vars_commands[k].action,
        };
        assert(c.name@ == vars_commands@[k as int].name@);
        cs.push(c);
        k = k + 1;
    }
    assert(cs@[2].name@ == vars_commands@[0].name@);
    assert(cs@[3].name@ == vars_commands@[1].name@);
    assert(cs@[4].name@ == vars_commands@[2].name@);
    assert(cs@[5].name@ == vars_commands@[3].name@);
    cs
}

} // verus!
