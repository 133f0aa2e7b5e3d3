//! The console commands: the vars engine pipeline and the command
//! tables, with argument parsing for the `v` and `t` commands.

pub mod console;
pub mod tool;
pub mod vars;
