//! Console commands: a name the user types, paired with the action it
//! stands for.  The I/O layer performs the action; the table itself
//! and its lookup are pure.

use vstd::prelude::*;
use vstd::string::StringExecFns;

verus! {

/// What a console command does.  The surrounding program interprets
/// the tag; everything that can be computed from plain values lives
/// in this crate.
#[derive(Clone, Copy, Debug, PartialEq, Eq, Structural)]
pub enum Action {
    /// Print a greeting.
    Hello,
    /// Print the vars help screen.
    VarsHelp,
    /// Read a variable: `vr <path> [-c]`.
    VarsRefer,
    /// Write a variable: `vm <path> <value> [-s]`.
    VarsModify,
    /// The vars dispatcher: `v m|r ...`.
    Vars,
    /// Initialize the current directory as a workspace.
    InitWorkspace,
    /// Use the current directory as the workspace.
    UseWorkspace,
    /// Remove the current workspace's files.
    CleanWorkspace,
    /// Show the current workspace's path.
    ShowCurrentWorkspace,
    /// Run an outside tool.
    Tool,
}

/// One entry of the shell's command table.
pub struct Command {
    pub name: String,
    /// What runs when the paired name is typed at the prompt.
    pub action: Action,
}

impl Command {
    pub fn new(name: &str, action: Action) -> (c: Command)
        ensures
            c.name@ == name@,
            c.action == action,
    {
        Command { name: String::from_str(name), action }
    }
}

/// Index of the first command in `cmds` with the given name, or -1.
pub open spec fn find_command(cmds: Seq<Command>, name: Seq<char>) -> int
    decreases cmds.len(),
{
    if cmds.len() == 0 {
        -1
    } else if cmds[0].name@ == name {
        0
    } else {
        let rest = find_command(cmds.drop_first(), name);
        if rest == -1 {
            -1
        } else {
            rest + 1
        }
    }
}

/// `find_command` is either -1 or the index of the first command with
/// that name.
pub proof fn lemma_find_command(cmds: Seq<Command>, name: Seq<char>)
    ensures
        -1 <= find_command(cmds, name) < cmds.len(),
        find_command(cmds, name) == -1 ==> forall|i: int|
            0 <= i < cmds.len() ==> (#[trigger] cmds[i]).name@ != name,
        find_command(cmds, name) >= 0 ==> cmds[find_command(cmds, name)].name@ == name,
    decreases cmds.len(),
{
    if cmds.len() > 0 && cmds[0].name@ != name {
        lemma_find_command(cmds.drop_first(), name);
        let rest = find_command(cmds.drop_first(), name);
        if rest == -1 {
            assert forall|i: int| 0 <= i < cmds.len() implies (#[trigger] cmds[i]).name@ != name by {
                if i >= 1 {
                    assert(cmds.drop_first()[i - 1] == cmds[i]);
                }
            }
        } else {
            assert(cmds[rest + 1] == cmds.drop_first()[rest]);
        }
    }
}

/// The commands every shell starts with.
pub fn builtins() -> (cs: Vec<Command>)
    ensures
        cs@.len() == 1,
        cs@[0].name@ == "h"@,
        cs@[0].action == Action::Hello,
{
    let mut cs: Vec<Command> = Vec::new();
    cs.push(Command::new("h", Action::Hello));
    cs
}

} // verus!
