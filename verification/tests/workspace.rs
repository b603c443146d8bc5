use patchbay_server::storage::{absolute_path, default_database_path, patchbay_home_dir, sqlite_url, StorageError};
use patchbay_server::workspace::{
    default_ide_name, existing_workspace_path, folder_open_command, ide_open_command,
    recorded_workspace_path, ResolvedPath, WorkspaceError, WorkspaceOpenConfig,
    WorkspaceOpenTarget,
};

fn resolve(path: &str) -> Option<ResolvedPath> {
    std::path::Path::new(path).canonicalize().ok().map(|canonical| ResolvedPath {
        canonical: canonical.display().to_string(),
        is_dir: canonical.is_dir(),
    })
}

#[test]
fn macos_ide_command_uses_open_application() {
    let config = WorkspaceOpenConfig {
        os: "macos".to_owned(),
        ide_name: "RustRover".to_owned(),
    };

    let command = config.command_for(WorkspaceOpenTarget::Ide, "/tmp/demo").unwrap();

    assert_eq!(command.program, "open");
    assert_eq!(command.args, vec!["-a", "RustRover", "/tmp/demo"]);
}

#[test]
fn linux_folder_command_uses_xdg_open() {
    let command = folder_open_command("linux", "/tmp/demo").unwrap();

    assert_eq!(command.program, "xdg-open");
    assert_eq!(command.args, vec!["/tmp/demo"]);
}

#[test]
fn missing_workspace_path_is_rejected() {
    let path = "/definitely/not/a/patchbay/workspace";
    let err = existing_workspace_path(path, resolve(path)).unwrap_err().message();

    assert!(err.contains("does not exist"));
}

#[test]
fn workspace_must_be_a_directory() {
    let resolved = ResolvedPath {
        canonical: "/tmp/file.txt".to_owned(),
        is_dir: false,
    };
    assert_eq!(
        existing_workspace_path("file.txt", Some(resolved)).unwrap_err().message(),
        "workspace path '/tmp/file.txt' is not a directory"
    );
    let dir = ResolvedPath {
        canonical: "/tmp".to_owned(),
        is_dir: true,
    };
    assert_eq!(existing_workspace_path("/tmp/", Some(dir)).unwrap(), "/tmp");
}

#[test]
fn open_targets_and_commands() {
    assert_eq!(WorkspaceOpenTarget::parse(" folder ").unwrap(), WorkspaceOpenTarget::Folder);
    assert_eq!(WorkspaceOpenTarget::parse("ide").unwrap(), WorkspaceOpenTarget::Ide);
    assert_eq!(
        WorkspaceOpenTarget::parse(" shell ").unwrap_err().message(),
        "workspace open target must be folder or ide, got 'shell'"
    );
    assert_eq!(
        folder_open_command("plan9", "/x").unwrap_err().message(),
        "folder opening is not supported on plan9"
    );
    assert!(matches!(ide_open_command("linux", "  ", "/x"), Err(WorkspaceError::EmptyIdeName)));
    let linux = ide_open_command("linux", " rustrover ", "/x").unwrap();
    assert_eq!(linux.program, "rustrover");
    assert_eq!(linux.args, vec!["/x"]);
    assert_eq!(folder_open_command("windows", "C:/x").unwrap().program, "explorer");
    assert_eq!(default_ide_name("macos"), "RustRover");
    assert_eq!(default_ide_name("windows"), "rustrover64.exe");
    assert_eq!(default_ide_name("linux"), "rustrover");
    assert_eq!(WorkspaceOpenConfig::from_values("linux", Some("  ")).ide_name, "rustrover");
    assert_eq!(WorkspaceOpenConfig::from_values("linux", Some("code")).ide_name, "code");
    assert_eq!(
        recorded_workspace_path("demo", Some("   ")).unwrap_err().message(),
        "project 'demo' has no workspace path"
    );
    assert_eq!(recorded_workspace_path("demo", Some(" /w ")).unwrap(), "/w");
}

#[test]
fn database_paths() {
    assert_eq!(default_database_path(Some("/home/a")), "/home/a/.patchbay/patchbay.sqlite3");
    assert_eq!(default_database_path(Some("/home/a/")), "/home/a/.patchbay/patchbay.sqlite3");
    assert_eq!(default_database_path(None), ".patchbay/patchbay.sqlite3");
    assert_eq!(patchbay_home_dir(Some("")), ".patchbay");
    assert_eq!(sqlite_url("/tmp/p.sqlite3"), "sqlite:///tmp/p.sqlite3?mode=rwc");
    assert_eq!(absolute_path("/abs/db", None).unwrap(), "/abs/db");
    assert_eq!(absolute_path("rel/db", Some("/work")).unwrap(), "/work/rel/db");
    assert_eq!(absolute_path("rel/db", None), Err(StorageError::CurrentDirUnavailable));
}
