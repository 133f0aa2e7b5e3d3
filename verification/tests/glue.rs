//! Tests of the console glue: output decorations, command tables,
//! the shell's pure loop logic, configuration paths, and error
//! reports.

use pwnrail::command;
use pwnrail::config::{AppConfig, DynamicConfig, Workspace};
use pwnrail::console;
use pwnrail::console::tool::{parse_tool_args, ToolArgsError, ToolCmd};
use pwnrail::console::vars::{parse_vars_args, VarsArgsError, VarsCmd};
use pwnrail::error::{
    AppConfigError, AppInitError, CreateNewWorkspaceError, DynConfInitError, Error,
    InitCurrentDirAsWorkspaceError, report_lines, UseCurrentDirAsWorkspaceError,
};
use pwnrail::output::{error_prefix, green, log_prefix, red};
use pwnrail::shell::command::{builtins, Action, Command};
use pwnrail::shell::shell::{LineAction, Shell};
use pwnrail::util::{
    current_ws_mgr_path, gconfig_dir_path, ginit, history_file_path, EntryKind,
};

fn conf(ws: &str) -> AppConfig {
    AppConfig::assemble("/home/u", DynamicConfig { current_workspace: ws.to_string() })
}

#[test]
fn colour_wrappers() {
    assert_eq!(red("err"), "\x1b[31merr\x1b[0m");
    assert_eq!(green("info"), "\x1b[32minfo\x1b[0m");
    assert_eq!(error_prefix(), "[\x1b[31merr\x1b[0m]");
    assert_eq!(log_prefix(), "[\x1b[32minfo\x1b[0m]");
}

#[test]
fn command_tables() {
    let b = builtins();
    assert_eq!(b.len(), 1);
    assert_eq!(b[0].name, "h");
    assert_eq!(b[0].action, Action::Hello);

    let top = command::command::commands();
    let names: Vec<&str> = top.iter().map(|c| c.name.as_str()).collect();
    assert_eq!(names, ["use", "init", "v", "vh", "vr", "vm"]);

    let show = command::show::commands();
    assert_eq!(show[0].name, "scw");
    assert_eq!(show[0].action, Action::ShowCurrentWorkspace);

    let cons = console::console::commands();
    let names: Vec<&str> = cons.iter().map(|c| c.name.as_str()).collect();
    assert_eq!(names, ["v", "init", "use", "clean"]);
}

#[test]
fn shell_new_merges_commands() {
    let sh = Shell::new(Some(command::command::commands()), None, None, conf(""));
    assert_eq!(sh.commands.len(), 7);
    assert_eq!(sh.commands[0].name, "h");
    assert_eq!(sh.commands[1].name, "use");
    assert_eq!(sh.prompt, "shell> ");
    assert_eq!(sh.err_prompt, "shell>");
    assert!(!sh.prev_state);
}

#[test]
fn shell_search_finds_first_match() {
    let sh = Shell::new(Some(command::command::commands()), None, None, conf(""));
    assert_eq!(sh.search_command(&"vm".to_string()), Some(6));
    assert_eq!(sh.search_command(&"h".to_string()), Some(0));
    assert_eq!(sh.search_command(&"nope".to_string()), None);
}

#[test]
fn shell_prompt_line() {
    let mut sh = Shell::new(None, None, None, conf("/tmp/proj"));
    assert_eq!(sh.prompt_line(), "|proj| shell>  ");
    sh.record_result(true);
    assert_eq!(sh.prompt_line(), "|proj| shell> ");
    let sh2 = Shell::new(None, None, None, conf(""));
    assert_eq!(sh2.prompt_line(), "shell>  ");
}

#[test]
fn shell_interpret_lines() {
    let sh = Shell::new(Some(command::command::commands()), None, None, conf(""));
    assert_eq!(sh.interpret("exit"), LineAction::Exit);
    assert_eq!(sh.interpret("   "), LineAction::Blank);
    assert_eq!(sh.interpret(""), LineAction::Blank);
    assert_eq!(
        sh.interpret("vm ip  0.0.0.0"),
        LineAction::Run { index: 6, args: "ip 0.0.0.0".to_string() }
    );
    assert_eq!(sh.interpret("vr"), LineAction::Run { index: 5, args: "".to_string() });
    assert_eq!(sh.interpret("frob x"), LineAction::NotFound("frob".to_string()));
}

#[test]
fn custom_prompts_are_kept() {
    let sh = Shell::new(None, Some(red("grv>")), Some("bad>".to_string()), conf(""));
    assert_eq!(sh.prompt, "\x1b[31mgrv>\x1b[0m");
    assert_eq!(sh.err_prompt, "bad>");
}

#[test]
fn config_paths() {
    let c = conf("/w");
    assert_eq!(c.app_conf_path, "/home/u/.pwnrail");
    assert_eq!(c.dyn_conf_path, "/home/u/.pwnrail/dynamic_config.toml");
    assert_eq!(c.shell_hist_path, "/home/u/.pwnrail/shell_history");
    assert_eq!(c.dyn_conf.current_workspace, "/w");

    let w = Workspace::assemble_struct("/proj");
    assert_eq!(w.mgr_path, "/proj/.prail");
    assert_eq!(w.vars_path, "/proj/vars.json");
}

#[test]
fn util_paths_and_ginit_plan() {
    assert_eq!(gconfig_dir_path("/h"), "/h/.pentenv");
    assert_eq!(current_ws_mgr_path("/h"), "/h/.pentenv/current");
    assert_eq!(history_file_path("/h"), "/h/.pentenv/history");

    let plan = ginit("/h");
    assert_eq!(plan.len(), 3);
    assert_eq!(plan[0].kind, EntryKind::Dir);
    assert_eq!(plan[0].path, "/h/.pentenv");
    assert_eq!(plan[1].kind, EntryKind::File);
    assert_eq!(plan[1].path, "/h/.pentenv/current");
    assert_eq!(plan[2].kind, EntryKind::File);
    assert_eq!(plan[2].path, "/h/.pentenv/history");
}

#[test]
fn vars_args() {
    assert_eq!(
        parse_vars_args("m ip 0.0.0.0 -s"),
        Ok(VarsCmd::Modify { path: "ip".to_string(), value: "0.0.0.0".to_string(), show: true })
    );
    assert_eq!(
        parse_vars_args("m ip 0.0.0.0"),
        Ok(VarsCmd::Modify { path: "ip".to_string(), value: "0.0.0.0".to_string(), show: false })
    );
    assert_eq!(
        parse_vars_args("r creds[0].password -c"),
        Ok(VarsCmd::Refer { path: "creds[0].password".to_string(), copy: true })
    );
    assert_eq!(
        parse_vars_args("r ip"),
        Ok(VarsCmd::Refer { path: "ip".to_string(), copy: false })
    );
    assert_eq!(parse_vars_args(""), Err(VarsArgsError::MissingSubcommand));
    assert_eq!(parse_vars_args("x ip"), Err(VarsArgsError::UnknownSubcommand));
    assert_eq!(parse_vars_args("m ip"), Err(VarsArgsError::MissingArgument));
    assert_eq!(parse_vars_args("r"), Err(VarsArgsError::MissingArgument));
    assert_eq!(parse_vars_args("r a b"), Err(VarsArgsError::UnexpectedArgument));
}

#[test]
fn tool_args() {
    assert_eq!(
        parse_tool_args("list nmap fast -s"),
        Ok(ToolCmd::List { path: "nmap".to_string(), value: "fast".to_string(), show: true })
    );
    assert_eq!(parse_tool_args(""), Err(ToolArgsError::MissingSubcommand));
    assert_eq!(parse_tool_args("run x y"), Err(ToolArgsError::UnknownSubcommand));
    assert_eq!(parse_tool_args("list x"), Err(ToolArgsError::MissingArgument));
    assert_eq!(parse_tool_args("list x y z"), Err(ToolArgsError::UnexpectedArgument));
}

#[test]
fn error_report_cascade() {
    let e = Error::AppConfigError(AppConfigError::AppInitError(AppInitError::DynConfInitError(
        DynConfInitError::CreateError("boom".to_string()),
    )));
    assert_eq!(
        report_lines(&e),
        [
            "error around config",
            "failed to init app",
            "failed to init dynamic config: `failed to create dynamic config file`",
            "failed to create dynamic config file",
            "boom",
        ]
    );
}

#[test]
fn error_report_workspace_cases() {
    let e = Error::InitCurrentDirAsWorkspaceError(
        InitCurrentDirAsWorkspaceError::CreateNewWorkspaceError(
            CreateNewWorkspaceError::MgrAlreadyExists,
        ),
    );
    assert_eq!(
        report_lines(&e),
        [
            "failed to init current directory as a workpsace",
            "failed to create new workspace",
            "a workspace manager directory already exists",
        ]
    );
    let e2 = Error::UseCurrentDirAsWorkspaceError(UseCurrentDirAsWorkspaceError::BeforeInitError);
    assert_eq!(
        report_lines(&e2),
        [
            "failed to use current directory as a workspace",
            "the workspace manager doesn't exist in the current directory",
        ]
    );
}

#[test]
fn help_reports_no_error() {
    let c = conf("");
    assert!(!pwnrail::command::vars::help::help2(String::new(), &c));
}
