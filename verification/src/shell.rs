//! The interactive shell: its command table and the pure part of its
//! read-eval loop.

pub mod command;
pub mod shell;
