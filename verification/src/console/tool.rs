//! Argument parsing for the tool command: `t list <path> <value>
//! [-s]`.  Running the listed tool is the surrounding program's work.

use vstd::prelude::*;
use crate::textutil::{sp_tokens, split_flag, split_tokens, str_eq, strs_view, lemma_strs_view};

verus! {

/// A parsed tool command.
#[derive(Debug, PartialEq, Eq)]
pub enum ToolCmd {
    List { path: String, value: String, show: bool },
}

/// The ways a tool command line can be malformed.
#[derive(Clone, Copy, Debug, PartialEq, Eq, Structural)]
pub enum ToolArgsError {
    MissingSubcommand,
    UnknownSubcommand,
    MissingArgument,
    UnexpectedArgument,
}

/// Parses the argument text of the tool command.
pub fn parse_tool_args(argument: &str) -> (r: Result<ToolCmd, ToolArgsError>)
    ensures
        sp_tokens(argument@, 0).len() == 0 ==> r == Err::<ToolCmd, _>(
            ToolArgsError::MissingSubcommand,
        ),
        (sp_tokens(argument@, 0).len() > 0 && sp_tokens(argument@, 0)[0] != "list"@) ==> r
            == Err::<ToolCmd, _>(ToolArgsError::UnknownSubcommand),
        (sp_tokens(argument@, 0).len() > 0 && sp_tokens(argument@, 0)[0] == "list"@) ==> ({
            let pos = sp_tokens(argument@, 0).skip(1).filter((|t: Seq<char>| t != "-s"@));
            &&& pos.len() < 2 ==> r == Err::<ToolCmd, _>(ToolArgsError::MissingArgument)
            &&& pos.len() > 2 ==> r == Err::<ToolCmd, _>(ToolArgsError::UnexpectedArgument)
            &&& pos.len() == 2 ==> (r matches Ok(c) && c matches ToolCmd::List {
                path,
                value,
                show,
            } && path@ == pos[0] && value@ == pos[1])
        }),
{
    let tokens = split_tokens(argument);
    proof {
        lemma_strs_view(tokens@);
    }
    if tokens.len() == 0 {
        return Err(ToolArgsError::MissingSubcommand);
    }
    if !str_eq(tokens[0].as_str(), "list") {
        return Err(ToolArgsError::UnknownSubcommand);
    }
    let (pos, show) = split_flag(&tokens, 1, "-s");
    proof {
        lemma_strs_view(pos@);
        assert(strs_view(tokens@).skip(1) =~= sp_tokens(argument@, 0).skip(1));
    }
    if pos.len() < 2 {
        return Err(ToolArgsError::MissingArgument);
    }
    if pos.len() > 2 {
        return Err(ToolArgsError::UnexpectedArgument);
    }
    Ok(ToolCmd::List { path: pos[0].clone(), value: pos[1].clone(), show })
}

} // verus!
