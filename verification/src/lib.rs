#![verifier::loop_isolation(false)]
//! Workspace note-keeping library: a JSON value tree with a compact
//! path-query engine (`refer` to read, `modify` to write), together with
//! the pure parts of the surrounding console tool (prompt and command
//! tables, configuration paths, error reports).

pub mod command;
pub mod config;
pub mod console;
pub mod error;
pub mod laws;
pub mod numscan;
pub mod output;
pub mod parse;
pub mod path;
pub mod query;
pub mod roundtrip;
pub mod ser;
pub mod shell;
pub mod textutil;
pub mod util;
pub mod value;
