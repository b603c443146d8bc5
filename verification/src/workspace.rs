use vstd::prelude::*;

use crate::text::{is_blank, str_eq, trim, trim_str};

verus! {

/// Where a workspace is opened: in the file manager or in the IDE.
#[derive(Clone, Copy, Debug, PartialEq, Eq, Structural)]
pub enum WorkspaceOpenTarget {
    Folder,
    Ide,
}

/// Why a workspace could not be opened.
#[derive(Clone, Debug)]
pub enum WorkspaceError {
    /// The requested target (trimmed) is neither `folder` nor `ide`.
    InvalidTarget(String),
    /// Folders cannot be opened on this operating system.
    UnsupportedOs(String),
    /// The configured IDE name is blank.
    EmptyIdeName,
    /// The path does not resolve to an existing file.
    MissingPath(String),
    /// The path resolves to something other than a directory.
    NotADirectory(String),
    /// The project has no workspace path.
    NoWorkspacePath(String),
}

/// The message of a workspace error.
pub open spec fn workspace_error_text(e: WorkspaceError) -> Seq<char> {
    match e {
        WorkspaceError::InvalidTarget(t) => "workspace open target must be folder or ide, got '"@ + t@ + "'"@,
        WorkspaceError::UnsupportedOs(os) => "folder opening is not supported on "@ + os@,
        WorkspaceError::EmptyIdeName => "PATCHBAY_WORKSPACE_IDE cannot be empty"@,
        WorkspaceError::MissingPath(p) => "workspace path '"@ + p@ + "' does not exist"@,
        WorkspaceError::NotADirectory(p) => "workspace path '"@ + p@ + "' is not a directory"@,
        WorkspaceError::NoWorkspacePath(name) => "project '"@ + name@ + "' has no workspace path"@,
    }
}

impl WorkspaceError {
    /// The message shown for this error.
    pub fn message(&self) -> (r: String)
        ensures
            r@ == workspace_error_text(*self),
    {
        match self {
            WorkspaceError::InvalidTarget(t) => {
                let mut s = String::from_str("workspace open target must be folder or ide, got '");
                s.append(t.as_str());
                s.append("'");
                s
            },
            WorkspaceError::UnsupportedOs(os) => {
                let mut s = String::from_str("folder opening is not supported on ");
                s.append(os.as_str());
                s
            },
            WorkspaceError::EmptyIdeName => String::from_str("PATCHBAY_WORKSPACE_IDE cannot be empty"),
            WorkspaceError::MissingPath(p) => {
                let mut s = String::from_str("workspace path '");
                s.append(p.as_str());
                s.append("' does not exist");
                s
            },
            WorkspaceError::NotADirectory(p) => {
                let mut s = String::from_str("workspace path '");
                s.append(p.as_str());
                s.append("' is not a directory");
                s
            },
            WorkspaceError::NoWorkspacePath(name) => {
                let mut s = String::from_str("project '");
                s.append(name.as_str());
                s.append("' has no workspace path");
                s
            },
        }
    }
}

/// The target that a request names, after trimming: `folder` or `ide`.
pub open spec fn target_of(value: Seq<char>) -> Option<WorkspaceOpenTarget> {
    if trim(value) == "folder"@ {
        Some(WorkspaceOpenTarget::Folder)
    } else if trim(value) == "ide"@ {
        Some(WorkspaceOpenTarget::Ide)
    } else {
        None
    }
}

impl WorkspaceOpenTarget {
    /// Reads a workspace open target; anything but `folder` or `ide` is refused.
    pub fn parse(value: &str) -> (r: Result<WorkspaceOpenTarget, WorkspaceError>)
        ensures
            match r {
                Ok(t) => target_of(value@) == Some(t),
                Err(e) => target_of(value@) is None && (e matches WorkspaceError::InvalidTarget(t) && t@ == trim(value@)),
            },
    {
        let v = trim_str(value);
        if str_eq(v.as_str(), "folder") {
            Ok(WorkspaceOpenTarget::Folder)
        } else if str_eq(v.as_str(), "ide") {
            Ok(WorkspaceOpenTarget::Ide)
        } else {
            Err(WorkspaceError::InvalidTarget(v))
        }
    }
}

/// A program to start, with its arguments.
#[derive(Clone, Debug)]
pub struct WorkspaceOpenCommand {
    pub program: String,
    pub args: Vec<String>,
}

/// The mathematical value of a command: program and arguments.
pub open spec fn command_view(c: WorkspaceOpenCommand) -> (Seq<char>, Seq<Seq<char>>) {
    (c.program@, crate::text::views(c.args@))
}

/// The command that opens `path` in the file manager of `os`.
pub open spec fn folder_command(os: Seq<char>, path: Seq<char>) -> Option<(Seq<char>, Seq<Seq<char>>)> {
    if os == "macos"@ {
        Some(("open"@, seq![path]))
    } else if os == "linux"@ {
        Some(("xdg-open"@, seq![path]))
    } else if os == "windows"@ {
        Some(("explorer"@, seq![path]))
    } else {
        None
    }
}

/// The command that opens `path` in the IDE `ide` (trimmed, not blank): on
/// macOS through `open -a`, elsewhere by starting the IDE itself.
pub open spec fn ide_command(os: Seq<char>, ide: Seq<char>, path: Seq<char>) -> (Seq<char>, Seq<Seq<char>>) {
    if os == "macos"@ {
        ("open"@, seq!["-a"@, trim(ide), path])
    } else {
        (trim(ide), seq![path])
    }
}

/// Law: a folder opens with the file manager of its system, given the path
/// as the one argument: `open` on macOS (the program that opens an IDE there
/// too), `xdg-open` on Linux and `explorer` on Windows, a different program
/// on each; no other system has one.
pub proof fn lemma_folder_programs(os: Seq<char>, other: Seq<char>, ide: Seq<char>, path: Seq<char>)
    ensures
        folder_command("macos"@, path) == Some(("open"@, seq![path])),
        folder_command("linux"@, path) == Some(("xdg-open"@, seq![path])),
        folder_command("windows"@, path) == Some(("explorer"@, seq![path])),
        folder_command("macos"@, path)->Some_0.0 == ide_command("macos"@, ide, path).0,
        folder_command(os, path) is Some <==> (os == "macos"@ || os == "linux"@ || os == "windows"@),
        folder_command(os, path) is Some ==> folder_command(os, path)->Some_0.1 == seq![path],
        folder_command(os, path) is Some && folder_command(other, path) is Some && os != other
            ==> folder_command(os, path)->Some_0.0 != folder_command(other, path)->Some_0.0,
{
    reveal_strlit("macos");
    reveal_strlit("linux");
    reveal_strlit("windows");
    reveal_strlit("open");
    reveal_strlit("xdg-open");
    reveal_strlit("explorer");
    assert("linux"@[0] != "macos"@[0]);
    assert("windows"@[0] != "macos"@[0] && "windows"@[0] != "linux"@[0]);
    assert("open"@[0] != "xdg-open"@[0] && "open"@[0] != "explorer"@[0] && "xdg-open"@[0] != "explorer"@[0]);
}

fn command_of(program: &str, args: Vec<String>) -> (c: WorkspaceOpenCommand)
    ensures
        c.program@ == program@,
        c.args@ == args@,
{
    WorkspaceOpenCommand { program: program.to_string(), args }
}

/// The command that opens a folder on `os`.
pub fn folder_open_command(os: &str, path: &str) -> (r: Result<WorkspaceOpenCommand, WorkspaceError>)
    ensures
        match r {
            Ok(c) => folder_command(os@, path@) == Some(command_view(c)),
            Err(e) => folder_command(os@, path@) is None && (e matches WorkspaceError::UnsupportedOs(o) && o@ == os@),
        },
{
    let args = vec![path.to_string()];
    assert(crate::text::views(args@) =~= seq![path@]);
    if str_eq(os, "macos") {
        Ok(command_of("open", args))
    } else if str_eq(os, "linux") {
        Ok(command_of("xdg-open", args))
    } else if str_eq(os, "windows") {
        Ok(command_of("explorer", args))
    } else {
        Err(WorkspaceError::UnsupportedOs(os.to_string()))
    }
}

/// The command that opens a folder in the IDE `ide_name`; a blank name is refused.
pub fn ide_open_command(os: &str, ide_name: &str, path: &str) -> (r: Result<WorkspaceOpenCommand, WorkspaceError>)
    ensures
        match r {
            Ok(c) => trim(ide_name@).len() > 0 && command_view(c) == ide_command(os@, ide_name@, path@),
            Err(e) => trim(ide_name@).len() == 0 && e is EmptyIdeName,
        },
{
    let ide = trim_str(ide_name);
    if is_blank(ide.as_str()) {
        proof {
            crate::display::labels::lemma_trim_idempotent(ide_name@);
        }
        return Err(WorkspaceError::EmptyIdeName);
    }
    proof {
        crate::display::labels::lemma_trim_idempotent(ide_name@);
    }
    if str_eq(os, "macos") {
        let args = vec![String::from_str("-a"), crate::text::copy_string(&ide), path.to_string()];
        proof {
            reveal_strlit("-a");
        }
        assert(crate::text::views(args@) =~= seq!["-a"@, trim(ide_name@), path@]);
        Ok(command_of("open", args))
    } else {
        let args = vec![path.to_string()];
        assert(crate::text::views(args@) =~= seq![path@]);
        Ok(WorkspaceOpenCommand { program: ide, args })
    }
}

/// The IDE started when none is configured, by operating system.
pub open spec fn default_ide(os: Seq<char>) -> Seq<char> {
    if os == "macos"@ {
        "RustRover"@
    } else if os == "windows"@ {
        "rustrover64.exe"@
    } else {
        "rustrover"@
    }
}

/// The IDE started when none is configured on `os`.
pub fn default_ide_name(os: &str) -> (r: String)
    ensures
        r@ == default_ide(os@),
{
    if str_eq(os, "macos") {
        String::from_str("RustRover")
    } else if str_eq(os, "windows") {
        String::from_str("rustrover64.exe")
    } else {
        String::from_str("rustrover")
    }
}

/// How workspaces are opened: the operating system and the IDE to start.
#[derive(Clone, Debug)]
pub struct WorkspaceOpenConfig {
    pub os: String,
    pub ide_name: String,
}

impl WorkspaceOpenConfig {
    /// The configuration for `os`, with the configured IDE where it is set
    /// and not blank, the default IDE of `os` otherwise.
    pub fn from_values(os: &str, configured_ide: Option<&str>) -> (c: WorkspaceOpenConfig)
        ensures
            c.os@ == os@,
            c.ide_name@ == match configured_ide {
                Some(ide) => if trim(ide@).len() > 0 { ide@ } else { default_ide(os@) },
                None => default_ide(os@),
            },
    {
        let ide_name = match configured_ide {
            Some(ide) => if is_blank(ide) { default_ide_name(os) } else { ide.to_string() },
            None => default_ide_name(os),
        };
        WorkspaceOpenConfig { os: os.to_string(), ide_name }
    }

    /// The command that opens `path` at `target`.
    pub fn command_for(&self, target: WorkspaceOpenTarget, path: &str) -> (r: Result<WorkspaceOpenCommand, WorkspaceError>)
        ensures
            match target {
                WorkspaceOpenTarget::Folder => match r {
                    Ok(c) => folder_command(self.os@, path@) == Some(command_view(c)),
                    Err(e) => folder_command(self.os@, path@) is None && e is UnsupportedOs,
                },
                WorkspaceOpenTarget::Ide => match r {
                    Ok(c) => trim(self.ide_name@).len() > 0 && command_view(c) == ide_command(self.os@, self.ide_name@, path@),
                    Err(e) => trim(self.ide_name@).len() == 0 && e is EmptyIdeName,
                },
            },
    {
        match target {
            WorkspaceOpenTarget::Folder => folder_open_command(self.os.as_str(), path),
            WorkspaceOpenTarget::Ide => ide_open_command(self.os.as_str(), self.ide_name.as_str(), path),
        }
    }
}

/// What resolving a path on disk gave: its canonical form and whether it is a directory.
#[derive(Clone, Debug)]
pub struct ResolvedPath {
    pub canonical: String,
    pub is_dir: bool,
}

/// The workspace directory for `path`, given what resolving it gave
/// (`None` where it does not resolve): the canonical path of a directory.
pub fn existing_workspace_path(path: &str, resolved: Option<ResolvedPath>) -> (r: Result<String, WorkspaceError>)
    ensures
        match resolved {
            None => r matches Err(WorkspaceError::MissingPath(p)) && p@ == path@,
            Some(res) => if res.is_dir {
                r matches Ok(c) && c@ == res.canonical@
            } else {
                r matches Err(WorkspaceError::NotADirectory(p)) && p@ == res.canonical@
            },
        },
{
    match resolved {
        None => Err(WorkspaceError::MissingPath(path.to_string())),
        Some(res) => if res.is_dir {
            Ok(res.canonical)
        } else {
            Err(WorkspaceError::NotADirectory(res.canonical))
        },
    }
}

/// The workspace path recorded for a project, trimmed; a missing or blank
/// one is refused.
pub fn recorded_workspace_path(project_name: &str, path: Option<&str>) -> (r: Result<String, WorkspaceError>)
    ensures
        match path {
            Some(p) => if trim(p@).len() > 0 {
                r matches Ok(t) && t@ == trim(p@)
            } else {
                r matches Err(WorkspaceError::NoWorkspacePath(n)) && n@ == project_name@
            },
            None => r matches Err(WorkspaceError::NoWorkspacePath(n)) && n@ == project_name@,
        },
{
    match path {
        Some(p) => {
            let t = trim_str(p);
            if is_blank(t.as_str()) {
                proof {
                    crate::display::labels::lemma_trim_idempotent(p@);
                }
                Err(WorkspaceError::NoWorkspacePath(project_name.to_string()))
            } else {
                proof {
                    crate::display::labels::lemma_trim_idempotent(p@);
                }
                Ok(t)
            }
        },
        None => Err(WorkspaceError::NoWorkspacePath(project_name.to_string())),
    }
}

} // verus!
