//! The newer command tables: workspace commands and the vars
//! commands.

pub mod command;
pub mod show;
pub mod vars;
