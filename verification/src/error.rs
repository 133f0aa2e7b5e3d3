//! The error taxonomy of the surrounding application, and the report
//! text each error unfolds to.
//!
//! System errors (a failed file operation, a rejected configuration
//! file) are carried as the message text the failing call produced;
//! the caller converts before handing an error in.  `report_lines`
//! computes the lines the console shows, one line per level of the
//! error, exactly in the order the messages are unfolded.

use vstd::prelude::*;
use vstd::string::StringExecFns;
use crate::console::vars::VarsError;

verus! {

/// Anything the application can fail with.
#[derive(Debug, PartialEq, Eq)]
pub enum Error {
    AppConfigError(AppConfigError),
    InitCurrentDirAsWorkspaceError(InitCurrentDirAsWorkspaceError),
    UseCurrentDirAsWorkspaceError(UseCurrentDirAsWorkspaceError),
    JsonQueryError(VarsError),
}

#[derive(Debug, PartialEq, Eq)]
pub enum AppConfigError {
    AppInitError(AppInitError),
    ReadDynConfError(ReadDynConfError),
}

#[derive(Debug, PartialEq, Eq)]
pub enum ReadDynConfError {
    OpenError(String),
    ReadError(String),
    ParseError(String),
}

#[derive(Debug, PartialEq, Eq)]
pub enum AppInitError {
    CheckAppConfPresenceError(String),
    InitAlreadyDone,
    AppConfDirCreateError(String),
    DynConfInitError(DynConfInitError),
    ShellHistInitError(ShellHistInitError),
}

#[derive(Debug, PartialEq, Eq)]
pub enum DynConfInitError {
    CreateError(String),
    ParseError(String),
    WriteError(String),
}

#[derive(Debug, PartialEq, Eq)]
pub enum ShellHistInitError {
    CreateError(String),
}

#[derive(Debug, PartialEq, Eq)]
pub enum UpdateDynConfFileError {
    ParseError(String),
    OpenError(String),
    WriteError(String),
}

#[derive(Debug, PartialEq, Eq)]
pub enum UseCurrentDirAsWorkspaceError {
    GetCurrentDirError(String),
    CheckMgrPresenceError(String),
    UpdateDynConfFileError(UpdateDynConfFileError),
    BeforeInitError,
}

#[derive(Debug, PartialEq, Eq)]
pub enum InitCurrentDirAsWorkspaceError {
    GetCurrentDirError(String),
    CreateNewWorkspaceError(CreateNewWorkspaceError),
    UseCurrentDirAsWorkspaceError(UseCurrentDirAsWorkspaceError),
}

#[derive(Debug, PartialEq, Eq)]
pub enum CreateNewWorkspaceError {
    CheckMgrPresenceError(String),
    MgrAlreadyExists,
    CreateMgrError(String),
    CreateVarsFileError(String),
    WriteVarsFileError(String),
}

/// The one-line description of a dynamic-configuration
/// initialization error.
pub open spec fn sp_dyn_conf_init_msg(e: DynConfInitError) -> Seq<char> {
    match e {
        DynConfInitError::CreateError(_) => "failed to create dynamic config file"@,
        DynConfInitError::ParseError(_) => "failed to parse DynamicConfig as Toml"@,
        DynConfInitError::WriteError(_) => "failed to write dynamic config to config file"@,
    }
}

/// The report of a dynamic-configuration initialization error: its
/// own line, then the system message.
pub open spec fn sp_dyn_conf_init_lines(e: DynConfInitError) -> Seq<Seq<char>> {
    match e {
        DynConfInitError::CreateError(s) => seq![sp_dyn_conf_init_msg(e), s@],
        DynConfInitError::ParseError(s) => seq![sp_dyn_conf_init_msg(e), s@],
        DynConfInitError::WriteError(s) => seq![sp_dyn_conf_init_msg(e), s@],
    }
}

/// The one-line description of a shell-history initialization error.
pub open spec fn sp_shell_hist_msg(e: ShellHistInitError) -> Seq<char> {
    "failed to create shell history file"@
}

pub open spec fn sp_shell_hist_lines(e: ShellHistInitError) -> Seq<Seq<char>> {
    match e {
        ShellHistInitError::CreateError(s) => seq![sp_shell_hist_msg(e), s@],
    }
}

/// The report of an application initialization error.  The two
/// nesting variants describe themselves with the nested error's
/// description between backticks, as the application displays them.
pub open spec fn sp_app_init_lines(e: AppInitError) -> Seq<Seq<char>> {
    match e {
        AppInitError::CheckAppConfPresenceError(s) => seq![
            "failed to get if app config directory"@,
            s@,
        ],
        AppInitError::InitAlreadyDone => seq!["initialization is already done"@],
        AppInitError::AppConfDirCreateError(s) => seq![
            "failed to create app config directory"@,
            s@,
        ],
        AppInitError::DynConfInitError(e2) => seq![
            "failed to init dynamic config: `"@ + sp_dyn_conf_init_msg(e2) + "`"@,
        ] + sp_dyn_conf_init_lines(e2),
        AppInitError::ShellHistInitError(e2) => seq![
            "failed to init shell history: `"@ + sp_shell_hist_msg(e2) + "`"@,
        ] + sp_shell_hist_lines(e2),
    }
}

pub open spec fn sp_read_dyn_conf_lines(e: ReadDynConfError) -> Seq<Seq<char>> {
    match e {
        ReadDynConfError::OpenError(s) => seq!["failed to open dynamic config file"@, s@],
        ReadDynConfError::ReadError(s) => seq![
            "failed to read dynamic config content from its file data"@,
            s@,
        ],
        ReadDynConfError::ParseError(s) => seq![
            "failed to parse toml file as dynamic config"@,
            s@,
        ],
    }
}

pub open spec fn sp_app_config_lines(e: AppConfigError) -> Seq<Seq<char>> {
    match e {
        AppConfigError::AppInitError(e2) => seq!["failed to init app"@] + sp_app_init_lines(e2),
        AppConfigError::ReadDynConfError(e2) => seq!["failed to read dynamic config"@]
            + sp_read_dyn_conf_lines(e2),
    }
}

pub open spec fn sp_update_dyn_conf_lines(e: UpdateDynConfFileError) -> Seq<Seq<char>> {
    match e {
        UpdateDynConfFileError::ParseError(s) => seq![
            "failed to parse toml file as dynamic config"@,
            s@,
        ],
        UpdateDynConfFileError::OpenError(s) => seq!["failed to open dynamic config file"@, s@],
        UpdateDynConfFileError::WriteError(s) => seq![
            "failed to write new dynamic config to the file"@,
            s@,
        ],
    }
}

pub open spec fn sp_use_current_lines(e: UseCurrentDirAsWorkspaceError) -> Seq<Seq<char>> {
    match e {
        UseCurrentDirAsWorkspaceError::GetCurrentDirError(s) => seq![
            "failed to get current directory"@,
            s@,
        ],
        UseCurrentDirAsWorkspaceError::CheckMgrPresenceError(s) => seq![
            "failed to get whether a workspace manager exists in current directory"@,
            s@,
        ],
        UseCurrentDirAsWorkspaceError::UpdateDynConfFileError(e2) => seq![
            "failed to update dynamic config"@,
        ] + sp_update_dyn_conf_lines(e2),
        UseCurrentDirAsWorkspaceError::BeforeInitError => seq![
            "the workspace manager doesn't exist in the current directory"@,
        ],
    }
}

pub open spec fn sp_create_ws_lines(e: CreateNewWorkspaceError) -> Seq<Seq<char>> {
    match e {
        CreateNewWorkspaceError::CheckMgrPresenceError(s) => seq![
            "failed to get whether a workspace manager already exists in current directory"@,
            s@,
        ],
        CreateNewWorkspaceError::MgrAlreadyExists => seq![
            "a workspace manager directory already exists"@,
        ],
        CreateNewWorkspaceError::CreateMgrError(s) => seq![
            "failed to create a workspace manager directory"@,
            s@,
        ],
        CreateNewWorkspaceError::CreateVarsFileError(s) => seq!["failed to create a vars file"@, s@],
        CreateNewWorkspaceError::WriteVarsFileError(s) => seq![
            "failed to write the initial content to the vars file"@,
            s@,
        ],
    }
}

pub open spec fn sp_init_current_lines(e: InitCurrentDirAsWorkspaceError) -> Seq<Seq<char>> {
    match e {
        InitCurrentDirAsWorkspaceError::GetCurrentDirError(s) => seq![
            "failed to get current directory"@,
            s@,
        ],
        InitCurrentDirAsWorkspaceError::CreateNewWorkspaceError(e2) => seq![
            "failed to create new workspace"@,
        ] + sp_create_ws_lines(e2),
        InitCurrentDirAsWorkspaceError::UseCurrentDirAsWorkspaceError(e2) => seq![
            "failed to use current directory as a workspace"@,
        ] + sp_use_current_lines(e2),
    }
}

/// The report of one application error: every message on the way
/// down, topmost first.
pub open spec fn sp_report_lines(e: Error) -> Seq<Seq<char>> {
    match e {
        Error::AppConfigError(e2) => seq!["error around config"@] + sp_app_config_lines(e2),
        Error::InitCurrentDirAsWorkspaceError(e2) => seq![
            "failed to init current directory as a workpsace"@,
        ] + sp_init_current_lines(e2),
        Error::UseCurrentDirAsWorkspaceError(e2) => seq![
            "failed to use current directory as a workspace"@,
        ] + sp_use_current_lines(e2),
        Error::JsonQueryError(_) => seq!["json query error"@],
    }
}


/// Appends every line of `more` to `out`.
fn extend_lines(out: &mut Vec<String>, more: &Vec<String>)
    ensures
        crate::textutil::strs_view(final(out)@) == crate::textutil::strs_view(old(out)@)
            + crate::textutil::strs_view(more@),
{
    proof {
        crate::textutil::lemma_strs_view(more@);
        assert(crate::textutil::strs_view(more@).take(0) =~= Seq::<Seq<char>>::empty());
        assert(crate::textutil::strs_view(out@) =~= crate::textutil::strs_view(old(out)@)
            + crate::textutil::strs_view(more@).take(0));
    }
    let mut i: usize = 0;
    while i < more.len()
        invariant
            i <= more@.len(),
            crate::textutil::strs_view(out@) == crate::textutil::strs_view(old(out)@)
                + crate::textutil::strs_view(more@).take(i as int),
        decreases more@.len() - i,
    {
        let ghost before = out@;
        out.push(more[i].clone());
        proof {
            crate::textutil::lemma_strs_view_push(before, out@.last());
            assert(out@.drop_last() =~= before);
            assert(out@.last()@ == more@[i as int]@);
            assert(crate::textutil::strs_view(more@).take(i + 1) =~= crate::textutil::strs_view(
                more@,
            ).take(i as int).push(more@[i as int]@));
            assert(crate::textutil::strs_view(out@) =~= crate::textutil::strs_view(old(out)@)
                + crate::textutil::strs_view(more@).take(i + 1));
        }
        i = i + 1;
    }
    proof {
        assert(crate::textutil::strs_view(more@).take(more@.len() as int)
            =~= crate::textutil::strs_view(more@));
    }
}

/// Pushes a line and proves the view grew by it.
fn push_line(out: &mut Vec<String>, line: String)
    ensures
        crate::textutil::strs_view(final(out)@) == crate::textutil::strs_view(old(out)@).push(
            line@,
        ),
{
    let ghost before = out@;
    let ghost line_view = line@;
    out.push(line);
    proof {
        crate::textutil::lemma_strs_view_push(before, out@.last());
        assert(out@.drop_last() =~= before);
    }
}

fn dyn_conf_init_msg(e: &DynConfInitError) -> (r: String)
    ensures
        r@ == sp_dyn_conf_init_msg(*e),
{
    match e {
        DynConfInitError::CreateError(_) => String::from_str("failed to create dynamic config file"),
        DynConfInitError::ParseError(_) => String::from_str("failed to parse DynamicConfig as Toml"),
        DynConfInitError::WriteError(_) => String::from_str(
            "failed to write dynamic config to config file",
        ),
    }
}

fn lines_dyn_conf_init(e: &DynConfInitError) -> (r: Vec<String>)
    ensures
        crate::textutil::strs_view(r@) == sp_dyn_conf_init_lines(*e),
{
    let mut r: Vec<String> = Vec::new();
    proof {
        assert(crate::textutil::strs_view(r@) =~= Seq::<Seq<char>>::empty());
    }
    let m = dyn_conf_init_msg(e);
    push_line(&mut r, m);
    match e {
        DynConfInitError::CreateError(s) => {
            push_line(&mut r, s.clone());
        },
        DynConfInitError::ParseError(s) => {
            push_line(&mut r, s.clone());
        },
        DynConfInitError::WriteError(s) => {
            push_line(&mut r, s.clone());
        },
    }
    proof {
        assert(crate::textutil::strs_view(r@) =~= sp_dyn_conf_init_lines(*e));
    }
    r
}

fn shell_hist_msg(e: &ShellHistInitError) -> (r: String)
    ensures
        r@ == sp_shell_hist_msg(*e),
{
    String::from_str("failed to create shell history file")
}

fn lines_shell_hist(e: &ShellHistInitError) -> (r: Vec<String>)
    ensures
        crate::textutil::strs_view(r@) == sp_shell_hist_lines(*e),
{
    let mut r: Vec<String> = Vec::new();
    proof {
        assert(crate::textutil::strs_view(r@) =~= Seq::<Seq<char>>::empty());
    }
    let m = shell_hist_msg(e);
    push_line(&mut r, m);
    match e {
        ShellHistInitError::CreateError(s) => {
            push_line(&mut r, s.clone());
        },
    }
    proof {
        assert(crate::textutil::strs_view(r@) =~= sp_shell_hist_lines(*e));
    }
    r
}

fn lines_app_init(e: &AppInitError) -> (r: Vec<String>)
    ensures
        crate::textutil::strs_view(r@) == sp_app_init_lines(*e),
{
    let mut r: Vec<String> = Vec::new();
    proof {
        assert(crate::textutil::strs_view(r@) =~= Seq::<Seq<char>>::empty());
    }
    match e {
        AppInitError::CheckAppConfPresenceError(s) => {
            push_line(&mut r, String::from_str("failed to get if app config directory"));
            push_line(&mut r, s.clone());
        },
        AppInitError::InitAlreadyDone => {
            push_line(&mut r, String::from_str("initialization is already done"));
        },
        AppInitError::AppConfDirCreateError(s) => {
            push_line(&mut r, String::from_str("failed to create app config directory"));
            push_line(&mut r, s.clone());
        },
        AppInitError::DynConfInitError(e2) => {
            let mut head = String::from_str("failed to init dynamic config: `");
            let m = dyn_conf_init_msg(e2);
            head.append(m.as_str());
            head.append("`");
            push_line(&mut r, head);
            let rest = lines_dyn_conf_init(e2);
            extend_lines(&mut r, &rest);
        },
        AppInitError::ShellHistInitError(e2) => {
            let mut head = String::from_str("failed to init shell history: `");
            let m = shell_hist_msg(e2);
            head.append(m.as_str());
            head.append("`");
            push_line(&mut r, head);
            let rest = lines_shell_hist(e2);
            extend_lines(&mut r, &rest);
        },
    }
    proof {
        assert(crate::textutil::strs_view(r@) =~= sp_app_init_lines(*e));
    }
    r
}

fn lines_read_dyn_conf(e: &ReadDynConfError) -> (r: Vec<String>)
    ensures
        crate::textutil::strs_view(r@) == sp_read_dyn_conf_lines(*e),
{
    let mut r: Vec<String> = Vec::new();
    proof {
        assert(crate::textutil::strs_view(r@) =~= Seq::<Seq<char>>::empty());
    }
    match e {
        ReadDynConfError::OpenError(s) => {
            push_line(&mut r, String::from_str("failed to open dynamic config file"));
            push_line(&mut r, s.clone());
        },
        ReadDynConfError::ReadError(s) => {
            push_line(
                &mut r,
                String::from_str("failed to read dynamic config content from its file data"),
            );
            push_line(&mut r, s.clone());
        },
        ReadDynConfError::ParseError(s) => {
            push_line(&mut r, String::from_str("failed to parse toml file as dynamic config"));
            push_line(&mut r, s.clone());
        },
    }
    proof {
        assert(crate::textutil::strs_view(r@) =~= sp_read_dyn_conf_lines(*e));
    }
    r
}

fn lines_update_dyn_conf(e: &UpdateDynConfFileError) -> (r: Vec<String>)
    ensures
        crate::textutil::strs_view(r@) == sp_update_dyn_conf_lines(*e),
{
    let mut r: Vec<String> = Vec::new();
    proof {
        assert(crate::textutil::strs_view(r@) =~= Seq::<Seq<char>>::empty());
    }
    match e {
        UpdateDynConfFileError::ParseError(s) => {
            push_line(&mut r, String::from_str("failed to parse toml file as dynamic config"));
            push_line(&mut r, s.clone());
        },
        UpdateDynConfFileError::OpenError(s) => {
            push_line(&mut r, String::from_str("failed to open dynamic config file"));
            push_line(&mut r, s.clone());
        },
        UpdateDynConfFileError::WriteError(s) => {
            push_line(
                &mut r,
                String::from_str("failed to write new dynamic config to the file"),
            );
            push_line(&mut r, s.clone());
        },
    }
    proof {
        assert(crate::textutil::strs_view(r@) =~= sp_update_dyn_conf_lines(*e));
    }
    r
}

fn lines_use_current(e: &UseCurrentDirAsWorkspaceError) -> (r: Vec<String>)
    ensures
        crate::textutil::strs_view(r@) == sp_use_current_lines(*e),
{
    let mut r: Vec<String> = Vec::new();
    proof {
        assert(crate::textutil::strs_view(r@) =~= Seq::<Seq<char>>::empty());
    }
    match e {
        UseCurrentDirAsWorkspaceError::GetCurrentDirError(s) => {
            push_line(&mut r, String::from_str("failed to get current directory"));
            push_line(&mut r, s.clone());
        },
        UseCurrentDirAsWorkspaceError::CheckMgrPresenceError(s) => {
            push_line(
                &mut r,
                String::from_str(
                    "failed to get whether a workspace manager exists in current directory",
                ),
            );
            push_line(&mut r, s.clone());
        },
        UseCurrentDirAsWorkspaceError::UpdateDynConfFileError(e2) => {
            push_line(&mut r, String::from_str("failed to update dynamic config"));
            let rest = lines_update_dyn_conf(e2);
            extend_lines(&mut r, &rest);
        },
        UseCurrentDirAsWorkspaceError::BeforeInitError => {
            push_line(
                &mut r,
                String::from_str("the workspace manager doesn't exist in the current directory"),
            );
        },
    }
    proof {
        assert(crate::textutil::strs_view(r@) =~= sp_use_current_lines(*e));
    }
    r
}

fn lines_create_ws(e: &CreateNewWorkspaceError) -> (r: Vec<String>)
    ensures
        crate::textutil::strs_view(r@) == sp_create_ws_lines(*e),
{
    let mut r: Vec<String> = Vec::new();
    proof {
        assert(crate::textutil::strs_view(r@) =~= Seq::<Seq<char>>::empty());
    }
    match e {
        CreateNewWorkspaceError::CheckMgrPresenceError(s) => {
            push_line(
                &mut r,
                String::from_str(
                    "failed to get whether a workspace manager already exists in current directory",
                ),
            );
            push_line(&mut r, s.clone());
        },
        CreateNewWorkspaceError::MgrAlreadyExists => {
            push_line(&mut r, String::from_str("a workspace manager directory already exists"));
        },
        CreateNewWorkspaceError::CreateMgrError(s) => {
            push_line(
                &mut r,
                String::from_str("failed to create a workspace manager directory"),
            );
            push_line(&mut r, s.clone());
        },
        CreateNewWorkspaceError::CreateVarsFileError(s) => {
            push_line(&mut r, String::from_str("failed to create a vars file"));
            push_line(&mut r, s.clone());
        },
        CreateNewWorkspaceError::WriteVarsFileError(s) => {
            push_line(
                &mut r,
                String::from_str("failed to write the initial content to the vars file"),
            );
            push_line(&mut r, s.clone());
        },
    }
    proof {
        assert(crate::textutil::strs_view(r@) =~= sp_create_ws_lines(*e));
    }
    r
}

fn lines_init_current(e: &InitCurrentDirAsWorkspaceError) -> (r: Vec<String>)
    ensures
        crate::textutil::strs_view(r@) == sp_init_current_lines(*e),
{
    let mut r: Vec<String> = Vec::new();
    proof {
        assert(crate::textutil::strs_view(r@) =~= Seq::<Seq<char>>::empty());
    }
    match e {
        InitCurrentDirAsWorkspaceError::GetCurrentDirError(s) => {
            push_line(&mut r, String::from_str("failed to get current directory"));
            push_line(&mut r, s.clone());
        },
        InitCurrentDirAsWorkspaceError::CreateNewWorkspaceError(e2) => {
            push_line(&mut r, String::from_str("failed to create new workspace"));
            let rest = lines_create_ws(e2);
            extend_lines(&mut r, &rest);
        },
        InitCurrentDirAsWorkspaceError::UseCurrentDirAsWorkspaceError(e2) => {
            push_line(
                &mut r,
                String::from_str("failed to use current directory as a workspace"),
            );
            let rest = lines_use_current(e2);
            extend_lines(&mut r, &rest);
        },
    }
    proof {
        assert(crate::textutil::strs_view(r@) =~= sp_init_current_lines(*e));
    }
    r
}

fn lines_app_config(e: &AppConfigError) -> (r: Vec<String>)
    ensures
        crate::textutil::strs_view(r@) == sp_app_config_lines(*e),
{
    let mut r: Vec<String> = Vec::new();
    proof {
        assert(crate::textutil::strs_view(r@) =~= Seq::<Seq<char>>::empty());
    }
    match e {
        AppConfigError::AppInitError(e2) => {
            push_line(&mut r, String::from_str("failed to init app"));
            let rest = lines_app_init(e2);
            extend_lines(&mut r, &rest);
        },
        AppConfigError::ReadDynConfError(e2) => {
            push_line(&mut r, String::from_str("failed to read dynamic config"));
            let rest = lines_read_dyn_conf(e2);
            extend_lines(&mut r, &rest);
        },
    }
    proof {
        assert(crate::textutil::strs_view(r@) =~= sp_app_config_lines(*e));
    }
    r
}

/// The lines the console shows for one application error, topmost
/// message first.
pub fn report_lines(e: &Error) -> (r: Vec<String>)
    ensures
        crate::textutil::strs_view(r@) == sp_report_lines(*e),
{
    let mut r: Vec<String> = Vec::new();
    proof {
        assert(crate::textutil::strs_view(r@) =~= Seq::<Seq<char>>::empty());
    }
    match e {
        Error::AppConfigError(e2) => {
            push_line(&mut r, String::from_str("error around config"));
            let rest = lines_app_config(e2);
            extend_lines(&mut r, &rest);
        },
        Error::InitCurrentDirAsWorkspaceError(e2) => {
            push_line(
                &mut r,
                String::from_str("failed to init current directory as a workpsace"),
            );
            let rest = lines_init_current(e2);
            extend_lines(&mut r, &rest);
        },
        Error::UseCurrentDirAsWorkspaceError(e2) => {
            push_line(
                &mut r,
                String::from_str("failed to use current directory as a workspace"),
            );
            let rest = lines_use_current(e2);
            extend_lines(&mut r, &rest);
        },
        Error::JsonQueryError(_) => {
            push_line(&mut r, String::from_str("json query error"));
        },
    }
    proof {
        assert(crate::textutil::strs_view(r@) =~= sp_report_lines(*e));
    }
    r
}
} // verus!
