//! The pure part of the interactive shell's read-eval loop: building
//! the prompt, reading one input line into a decision, and keeping
//! the last command's state.  The I/O layer reads lines, performs the
//! chosen action and reports whether it failed.

use vstd::prelude::*;
use vstd::string::StringExecFns;
use crate::config::AppConfig;
use crate::shell::command::{builtins, find_command, lemma_find_command, Action, Command};
use crate::textutil::{sp_join, sp_tokens, split_tokens, str_eq, strs_view};

verus! {

/// What the shell decides to do with one input line.
#[derive(Debug, PartialEq, Eq)]
pub enum LineAction {
    /// Leave the shell.
    Exit,
    /// Nothing was typed; show the prompt again.
    Blank,
    /// No command carries the typed name.
    NotFound(String),
    /// Run the command at `index` with the rest of the line as its
    /// argument text.
    Run { index: usize, args: String },
}

/// The suffix of `s` after its last `/` (all of `s` when it has
/// none).
pub open spec fn after_last_slash(s: Seq<char>) -> Seq<char>
    decreases s.len(),
{
    if s.len() == 0 {
        s
    } else if s[s.len() - 1] == '/' {
        Seq::empty()
    } else {
        after_last_slash(s.drop_last()).push(s[s.len() - 1])
    }
}

/// `after_last_slash` is the suffix that follows the last slash.
pub proof fn lemma_after_last_slash(s: Seq<char>, k: int)
    requires
        0 <= k <= s.len(),
        forall|j: int| k <= j < s.len() ==> s[j] != '/',
        k > 0 ==> s[k - 1] == '/',
    ensures
        after_last_slash(s) == s.subrange(k, s.len() as int),
    decreases s.len(),
{
    if s.len() == 0 {
        assert(s.subrange(0, 0) =~= s);
    } else if k == s.len() {
        assert(s[k - 1] == '/');
        assert(s.subrange(k, s.len() as int) =~= Seq::<char>::empty());
    } else {
        assert(s[s.len() - 1] != '/');
        let s2 = s.drop_last();
        assert forall|j: int| k <= j < s2.len() implies s2[j] != '/' by {
            assert(s2[j] == s[j]);
        }
        if k > 0 {
            assert(s2[k - 1] == s[k - 1]);
        }
        lemma_after_last_slash(s2, k);
        assert(after_last_slash(s) == s2.subrange(k, s2.len() as int).push(s[s.len() - 1]));
        assert(s2.subrange(k, s2.len() as int).push(s[s.len() - 1]) =~= s.subrange(
            k,
            s.len() as int,
        ));
    }
}

/// The workspace marker shown before the prompt: `|name| ` for the
/// last segment of the workspace path, nothing when no workspace is
/// set.
pub open spec fn ws_marker(p: Seq<char>) -> Seq<char> {
    if p.len() == 0 {
        Seq::empty()
    } else {
        seq!['|'] + after_last_slash(p) + seq!['|', ' ']
    }
}

/// The interactive shell: its command table, its prompts, the state
/// of the last command, and the application configuration the
/// commands work on.
pub struct Shell {
    pub commands: Vec<Command>,
    pub prompt: String,
    pub err_prompt: String,
    /// Whether the last executed command reported an error.
    pub prev_state: bool,
    pub app_conf: AppConfig,
}

impl Shell {
    /// A shell with the builtin commands, the given additional
    /// commands, and the given prompts (or the plain defaults).
    pub fn new(
        commands_: Option<Vec<Command>>,
        prompt_: Option<String>,
        err_prompt_: Option<String>,
        app_conf: AppConfig,
    ) -> (sh: Shell)
        ensures
            sh.commands@.len() == 1 + (match commands_ {
                Some(cs) => cs@.len(),
                None => 0,
            }),
            sh.commands@[0].name@ == "h"@,
            sh.commands@[0].action == Action::Hello,
            commands_ matches Some(cs) ==> forall|i: int|
                0 <= i < cs@.len() ==> sh.commands@[i + 1] == cs@[i],
            sh.prompt@ == (match prompt_ {
                Some(p) => p@,
                None => "shell> "@,
            }),
            sh.err_prompt@ == (match err_prompt_ {
                Some(p) => p@,
                None => "shell>"@,
            }),
            sh.prev_state == false,
            sh.app_conf == app_conf,
    {
        let mut commands = builtins();
        let ghost base = commands@;
        match commands_ {
            Some(cs) => {
                let mut k: usize = 0;
                let n = cs.len();
                while k < n
                    invariant
                        k <= n,
                        n == cs@.len(),
                        commands@.len() == base.len() + k,
                        commands@.subrange(0, base.len() as int) =~= base,
                        forall|i: int| 0 <= i < k ==> commands@[base.len() + i] == cs@[i],
                    decreases n - k,
                {
                    let c = Command { name: cs[k].name.clone(), action: cs[k].action };
                    assert(c.name@ == cs@[k as int].name@);
                    commands.push(c);
                    k = k + 1;
                }
            },
            None => {},
        }
        let prompt = match prompt_ {
            Some(p) => p,
            None => String::from_str("shell> "),
        };
        let err_prompt = match err_prompt_ {
            Some(p) => p,
            None => String::from_str("shell>"),
        };
        assert(commands@[0] == base[0]);
        Shell { commands, prompt, err_prompt, prev_state: false, app_conf }
    }

    /// Index of the first command carrying `name`, if any.
    pub fn search_command(&self, name: &String) -> (r: Option<usize>)
        ensures
            r matches Some(ix) ==> ix < self.commands@.len() && find_command(
                self.commands@,
                name@,
            ) == ix as int,
            r is None ==> find_command(self.commands@, name@) == -1,
    {
        proof {
            lemma_find_command(self.commands@, name@);
        }
        let mut t: usize = 0;
        while t < self.commands.len()
            invariant
                t <= self.commands@.len(),
                forall|u: int| 0 <= u < t ==> (#[trigger] self.commands@[u]).name@ != name@,
            decreases self.commands@.len() - t,
        {
            if self.commands[t].name.eq(name) {
                proof {
                    let fk = find_command(self.commands@, name@);
                    lemma_find_command_prefix(self.commands@, name@, t as int);
                }
                return Some(t);
            }
            t = t + 1;
        }
        proof {
            let fk = find_command(self.commands@, name@);
            if fk >= 0 {
                assert(self.commands@[fk].name@ == name@);
                assert(false);
            }
        }
        None
    }

    /// The prompt text for the next line: the workspace marker, then
    /// the ordinary or the error prompt, then one blank.
    pub fn prompt_line(&self) -> (r: String)
        ensures
            r@ == ws_marker(self.app_conf.dyn_conf.current_workspace@) + (if self.prev_state {
                self.err_prompt@
            } else {
                self.prompt@
            }) + seq![' '],
    {
        let ws = &self.app_conf.dyn_conf.current_workspace;
        let mut r = String::new();
        if ws.as_str().unicode_len() > 0 {
            let cs = crate::textutil::str_chars(ws.as_str());
            let mut k: usize = cs.len();
            while k > 0 && cs[k - 1] != '/'
                invariant
                    k <= cs.len(),
                    forall|j: int| k <= j < cs@.len() ==> cs@[j] != '/',
                decreases k,
            {
                k = k - 1;
            }
            proof {
                lemma_after_last_slash(cs@, k as int);
            }
            let mut seg: Vec<char> = Vec::new();
            let mut t: usize = k;
            while t < cs.len()
                invariant
                    k <= t <= cs@.len(),
                    seg@ == cs@.subrange(k as int, t as int),
                decreases cs@.len() - t,
            {
                seg.push(cs[t]);
                t = t + 1;
                assert(seg@ =~= cs@.subrange(k as int, t as int));
            }
            assert(seg@ == after_last_slash(ws@));
            r.push('|');
            let seg_str = crate::textutil::chars_to_string(&seg);
            r.append(seg_str.as_str());
            r.push('|');
            r.push(' ');
            assert(r@ =~= ws_marker(ws@));
        } else {
            assert(r@ =~= ws_marker(ws@));
        }
        if self.prev_state {
            r.append(self.err_prompt.as_str());
        } else {
            r.append(self.prompt.as_str());
        }
        r.push(' ');
        assert(r@ =~= ws_marker(self.app_conf.dyn_conf.current_workspace@) + (if self.prev_state {
            self.err_prompt@
        } else {
            self.prompt@
        }) + seq![' ']);
        r
    }

    /// Reads one input line into a decision: leave, ignore a blank
    /// line, report an unknown command, or run a command with the
    /// rest of the line as its argument text.
    pub fn interpret(&self, input: &str) -> (r: LineAction)
        ensures
            input@ == "exit"@ ==> r is Exit,
            input@ != "exit"@ && sp_tokens(input@, 0).len() == 0 ==> r is Blank,
            (input@ != "exit"@ && sp_tokens(input@, 0).len() > 0 && find_command(
                self.commands@,
                sp_tokens(input@, 0)[0],
            ) == -1) ==> (r matches LineAction::NotFound(name) && name@ == sp_tokens(input@, 0)[0]),
            (input@ != "exit"@ && sp_tokens(input@, 0).len() > 0 && find_command(
                self.commands@,
                sp_tokens(input@, 0)[0],
            ) >= 0) ==> (r matches LineAction::Run { index, args } && index as int == find_command(
                self.commands@,
                sp_tokens(input@, 0)[0],
            ) && args@ == sp_join(sp_tokens(input@, 0).skip(1))),
    {
        if str_eq(input, "exit") {
            return LineAction::Exit;
        }
        let tokens = split_tokens(input);
        proof {
            crate::textutil::lemma_strs_view(tokens@);
        }
        if tokens.len() == 0 {
            return LineAction::Blank;
        }
        match self.search_command(&tokens[0]) {
            Some(ix) => {
                let args = crate::textutil::join_from(&tokens, 1);
                assert(strs_view(tokens@).skip(1) =~= sp_tokens(input@, 0).skip(1));
                LineAction::Run { index: ix, args }
            },
            None => LineAction::NotFound(tokens[0].clone()),
        }
    }

    /// Records whether the command that just ran reported an error;
    /// the next prompt shows it.
    pub fn record_result(&mut self, is_err: bool)
        ensures
            final(self).commands == old(self).commands,
            final(self).prompt == old(self).prompt,
            final(self).err_prompt == old(self).err_prompt,
            final(self).app_conf == old(self).app_conf,
            final(self).prev_state == is_err,
    {
        self.prev_state = is_err;
    }
}

/// When all names before `t` differ from `name` and the one at `t`
/// matches, the first match is at `t`.
proof fn lemma_find_command_prefix(cmds: Seq<Command>, name: Seq<char>, t: int)
    requires
        0 <= t < cmds.len(),
        forall|u: int| 0 <= u < t ==> (#[trigger] cmds[u]).name@ != name,
        cmds[t].name@ == name,
    ensures
        find_command(cmds, name) == t,
    decreases cmds.len(),
{
    if t > 0 {
        assert(cmds[0].name@ != name);
        assert forall|u: int| 0 <= u < t - 1 implies (#[trigger] cmds.drop_first()[u]).name@
            != name by {
            assert(cmds.drop_first()[u] == cmds[u + 1]);
        }
        assert(cmds.drop_first()[t - 1] == cmds[t]);
        lemma_find_command_prefix(cmds.drop_first(), name, t - 1);
    }
}

} // verus!
