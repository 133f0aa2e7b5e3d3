//! The vars operations on a document's text: read a value by a path
//! query, or write one, returning the new document text.
//!
//! The caller (the interactive shell) reads the document file, hands
//! its text here, and persists the text that `modify` returns; a
//! failed `modify` returns an error and no text, so a half-changed
//! document can never be written back.

use vstd::prelude::*;
use vstd::string::StringExecFns;
use crate::textutil::{sp_tokens, split_flag, split_tokens, str_eq, strs_view, lemma_strs_view};
use crate::parse::{parse, sp_doc, ParseError};
use crate::path::{parse_path, sp_path, PathSyntaxError};
use crate::query::{modify, refer, sp_modify, sp_refer, QueryError};
use crate::ser::{ser_json, serialize};
use crate::value::{Json, Value};

verus! {

/// Everything that can go wrong in one vars operation.
#[derive(Clone, Copy, Debug, PartialEq, Eq, Structural)]
pub enum VarsError {
    /// The document text is not valid JSON.
    Parse(ParseError),
    /// The path string is malformed.
    PathSyntax(PathSyntaxError),
    /// Navigation failed.
    Query(QueryError),
}

/// The outcome of a read: the addressed value rendered as JSON text,
/// or a report that nothing stands at that path.  A missing value is
/// an ordinary outcome, not an error.
#[derive(Debug, PartialEq, Eq)]
pub enum ReferOutcome {
    Found(String),
    Missing,
}

/// The model value a new-value argument stands for: text that is a
/// complete JSON document is taken as that value, any other text
/// becomes a JSON string.  So `5` writes a number, `true` a boolean,
/// and a bare `0.0.0.0` a string.
pub open spec fn sp_new_value(raw: Seq<char>) -> Json {
    match sp_doc(raw) {
        Some(j) => j,
        None => Json::Str(raw),
    }
}

/// Turns a new-value argument into a value tree.
pub fn interpret_new_value(raw: &str) -> (v: Value)
    ensures
        v@ == sp_new_value(raw@),
{
    match parse(raw) {
        Ok(v) => v,
        Err(_) => Value::Str(String::from_str(raw)),
    }
}

/// Reads the value addressed by `query` in the document text `doc`.
pub fn refer_in_doc(doc: &str, query: &str) -> (r: Result<ReferOutcome, VarsError>)
    ensures
        sp_doc(doc@) is None ==> r == Err::<ReferOutcome, _>(VarsError::Parse(ParseError)),
        sp_doc(doc@) matches Some(j) ==> (match sp_path(query@) {
            Err(pe) => r == Err::<ReferOutcome, _>(VarsError::PathSyntax(pe)),
            Ok(steps) => (match sp_refer(j, steps) {
                Ok(v) => r matches Ok(o) && o matches ReferOutcome::Found(text) && text@
                    == ser_json(v),
                Err(QueryError::NotFound) => r == Ok::<_, VarsError>(ReferOutcome::Missing),
                Err(e) => r == Err::<ReferOutcome, _>(VarsError::Query(e)),
            }),
        }),
{
    let root = match parse(doc) {
        Ok(v) => v,
        Err(e) => {
            return Err(VarsError::Parse(e));
        },
    };
    let path = match parse_path(query) {
        Ok(p) => p,
        Err(e) => {
            return Err(VarsError::PathSyntax(e));
        },
    };
    match refer(&root, &path) {
        Ok(v) => Ok(ReferOutcome::Found(serialize(v))),
        Err(QueryError::NotFound) => Ok(ReferOutcome::Missing),
        Err(e) => Err(VarsError::Query(e)),
    }
}

/// Replaces the value addressed by `query` in the document text `doc`
/// with the value `raw_value` stands for, and returns the new
/// document text.
pub fn modify_in_doc(doc: &str, query: &str, raw_value: &str) -> (r: Result<String, VarsError>)
    ensures
        sp_doc(doc@) is None ==> r == Err::<String, _>(VarsError::Parse(ParseError)),
        sp_doc(doc@) matches Some(j) ==> (match sp_path(query@) {
            Err(pe) => r == Err::<String, _>(VarsError::PathSyntax(pe)),
            Ok(steps) => (match sp_modify(j, steps, sp_new_value(raw_value@)) {
                Ok(j2) => r matches Ok(text) && text@ == ser_json(j2),
                Err(e) => r == Err::<String, _>(VarsError::Query(e)),
            }),
        }),
{
    let mut root = match parse(doc) {
        Ok(v) => v,
        Err(e) => {
            return Err(VarsError::Parse(e));
        },
    };
    let path = match parse_path(query) {
        Ok(p) => p,
        Err(e) => {
            return Err(VarsError::PathSyntax(e));
        },
    };
    let nv = interpret_new_value(raw_value);
    match modify(&mut root, &path, nv) {
        Ok(_) => Ok(serialize(&root)),
        Err(e) => Err(VarsError::Query(e)),
    }
}

/// A parsed vars command line: write (`m <path> <value> [-s]`) or
/// read (`r <path> [-c]`).
#[derive(Debug, PartialEq, Eq)]
pub enum VarsCmd {
    Modify { path: String, value: String, show: bool },
    Refer { path: String, copy: bool },
}

/// The ways a vars command line can be malformed.
#[derive(Clone, Copy, Debug, PartialEq, Eq, Structural)]
pub enum VarsArgsError {
    MissingSubcommand,
    UnknownSubcommand,
    MissingArgument,
    UnexpectedArgument,
}

/// Parses the argument text of the vars dispatcher command.
pub fn parse_vars_args(argument: &str) -> (r: Result<VarsCmd, VarsArgsError>)
    ensures
        sp_tokens(argument@, 0).len() == 0 ==> r == Err::<VarsCmd, _>(
            VarsArgsError::MissingSubcommand,
        ),
        (sp_tokens(argument@, 0).len() > 0 && sp_tokens(argument@, 0)[0] != "m"@ && sp_tokens(
            argument@,
            0,
        )[0] != "r"@) ==> r == Err::<VarsCmd, _>(VarsArgsError::UnknownSubcommand),
        (sp_tokens(argument@, 0).len() > 0 && sp_tokens(argument@, 0)[0] == "m"@) ==> ({
            let pos = sp_tokens(argument@, 0).skip(1).filter((|t: Seq<char>| t != "-s"@));
            &&& pos.len() < 2 ==> r == Err::<VarsCmd, _>(VarsArgsError::MissingArgument)
            &&& pos.len() > 2 ==> r == Err::<VarsCmd, _>(VarsArgsError::UnexpectedArgument)
            &&& pos.len() == 2 ==> (r matches Ok(c) && c matches VarsCmd::Modify {
                path,
                value,
                show,
            } && path@ == pos[0] && value@ == pos[1])
        }),
        (sp_tokens(argument@, 0).len() > 0 && sp_tokens(argument@, 0)[0] == "r"@) ==> ({
            let pos = sp_tokens(argument@, 0).skip(1).filter((|t: Seq<char>| t != "-c"@));
            &&& pos.len() < 1 ==> r == Err::<VarsCmd, _>(VarsArgsError::MissingArgument)
            &&& pos.len() > 1 ==> r == Err::<VarsCmd, _>(VarsArgsError::UnexpectedArgument)
            &&& pos.len() == 1 ==> (r matches Ok(c) && c matches VarsCmd::Refer { path, copy }
                && path@ == pos[0])
        }),
{
    let tokens = split_tokens(argument);
    proof {
        lemma_strs_view(tokens@);
        reveal_strlit("m");
        reveal_strlit("r");
        assert("m"@.len() == 1 && "m"@[0] == 'm');
        assert("r"@.len() == 1 && "r"@[0] == 'r');
        assert("m"@ != "r"@);
    }
    if tokens.len() == 0 {
        return Err(VarsArgsError::MissingSubcommand);
    }
    if str_eq(tokens[0].as_str(), "m") {
        let (pos, show) = split_flag(&tokens, 1, "-s");
        proof {
            lemma_strs_view(pos@);
            assert(strs_view(tokens@).skip(1) =~= sp_tokens(argument@, 0).skip(1));
        }
        if pos.len() < 2 {
            return Err(VarsArgsError::MissingArgument);
        }
        if pos.len() > 2 {
            return Err(VarsArgsError::UnexpectedArgument);
        }
        Ok(VarsCmd::Modify { path: pos[0].clone(), value: pos[1].clone(), show })
    } else if str_eq(tokens[0].as_str(), "r") {
        let (pos, copy) = split_flag(&tokens, 1, "-c");
        proof {
            lemma_strs_view(pos@);
            assert(strs_view(tokens@).skip(1) =~= sp_tokens(argument@, 0).skip(1));
        }
        if pos.len() < 1 {
            return Err(VarsArgsError::MissingArgument);
        }
        if pos.len() > 1 {
            return Err(VarsArgsError::UnexpectedArgument);
        }
        Ok(VarsCmd::Refer { path: pos[0].clone(), copy })
    } else {
        Err(VarsArgsError::UnknownSubcommand)
    }
}

} // verus!
