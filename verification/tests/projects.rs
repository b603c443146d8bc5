use patchbay_server::projects::changes::{
    changed_event_fields, ChangedBody,
    changed_memory, check_memory_append_body, infer_agent_run_id, ProjectChangeSource,
};
use patchbay_server::projects::names::{
    check_project_directory, expand_home_path_with, expand_project_path, resolve_display_name,
    validate_project_name,
};
use patchbay_server::projects::record::{
    check_new_project, check_project_update, new_project_settings, project_path_updated,
    resolve_settings_update, ProjectSettingsRecord, UpdateProjectSettings,
};
use patchbay_server::projects::roots::{
    normalize_agent_extra_writable_roots, parse_agent_extra_writable_roots_text,
    path_starts_with_exec, serialize_agent_extra_writable_roots,
    validate_agent_extra_writable_roots_do_not_include_database,
};
use patchbay_server::projects::settings::{
    allowed_code_edit_agents, validate_agent_model, validate_settings, AgentSandboxMode,
    RevertStrategy, WorkspaceMode,
};

#[test]
fn project_path_expands_home_prefix() {
    let home = "/Users/example";

    assert_eq!(
        expand_home_path_with("~/dev/vibetest", Some(home)),
        "/Users/example/dev/vibetest"
    );
    assert_eq!(expand_home_path_with("~", Some(home)), "/Users/example");
}

#[test]
fn home_expansion_needs_a_home_and_a_leading_tilde() {
    assert_eq!(expand_home_path_with("~/x", None), "~/x");
    assert_eq!(expand_home_path_with("a/~/x", Some("/h")), "a/~/x");
    assert_eq!(expand_home_path_with("~x", Some("/h")), "~x");
}

#[test]
fn creating_project_requires_path_text() {
    assert_eq!(expand_project_path("  ", Some("/h")).unwrap_err().message(), "project path is required");
    assert_eq!(expand_project_path(" ~/p ", Some("/h")).unwrap(), "/h/p");
    assert_eq!(
        check_project_directory("/h/p".to_owned(), false).unwrap_err().message(),
        "project path '/h/p' is not a directory"
    );
}

#[test]
fn project_names_are_checked() {
    assert_eq!(validate_project_name(" ").unwrap_err().message(), "project name cannot be empty");
    assert_eq!(
        validate_project_name(" demo").unwrap_err().message(),
        "project name cannot have leading or trailing whitespace"
    );
    assert_eq!(
        validate_project_name("a/b").unwrap_err().message(),
        "project name cannot contain path separators"
    );
    assert_eq!(
        validate_project_name("a\\b").unwrap_err().message(),
        "project name cannot contain path separators"
    );
    assert!(validate_project_name("demo").is_ok());
    assert_eq!(resolve_display_name(None, "demo").unwrap(), "demo");
    assert_eq!(resolve_display_name(Some(" Demo Project ".to_owned()), "demo").unwrap(), "Demo Project");
    assert_eq!(
        resolve_display_name(Some("  ".to_owned()), "demo").unwrap_err().message(),
        "project display name cannot be empty"
    );
    assert_eq!(check_new_project("demo", None).unwrap(), "demo");
    assert!(check_project_update(false, false).is_err());
    assert!(project_path_updated(Some("/a"), Some("/b")));
    assert!(!project_path_updated(Some("/a"), Some("/a")));
    assert!(project_path_updated(None, Some("/a")));
}

fn models() -> Vec<String> {
    vec!["gpt-5.4".to_owned(), "gpt-5.4-mini".to_owned()]
}

#[test]
fn settings_rules() {
    let m = models();
    assert!(validate_settings(WorkspaceMode::CurrentBranch, 0, 0, false, 0, None, &m)
        .unwrap_err()
        .message()
        .contains("at least 1"));
    assert!(validate_settings(WorkspaceMode::GitBranch, 2, 0, false, 0, None, &m)
        .unwrap_err()
        .message()
        .contains("only git_worktree"));
    assert!(validate_settings(WorkspaceMode::GitWorktree, 1, -1, false, 0, None, &m)
        .unwrap_err()
        .message()
        .contains("max read-only agents"));
    assert!(validate_settings(WorkspaceMode::CurrentBranch, 1, 0, true, 0, None, &m)
        .unwrap_err()
        .message()
        .contains("pull requests"));
    assert!(validate_settings(WorkspaceMode::GitBranch, 1, 0, true, -1, None, &m)
        .unwrap_err()
        .message()
        .contains("stale claim"));
    assert!(validate_settings(WorkspaceMode::GitBranch, 1, 0, true, 0, Some("gpt-5.4"), &m).is_ok());
    assert_eq!(
        validate_agent_model(Some("gpt-4.1-codex"), &m).unwrap_err().message(),
        "default agent model must be one of: gpt-5.4, gpt-5.4-mini"
    );
    assert_eq!(validate_agent_model(Some(" "), &m).unwrap_err().message(), "default agent model cannot be empty");
    assert_eq!(allowed_code_edit_agents(WorkspaceMode::GitWorktree, 4), 4);
    assert_eq!(allowed_code_edit_agents(WorkspaceMode::GitBranch, 4), 1);
}

#[test]
fn writable_roots_are_normalized() {
    let roots = normalize_agent_extra_writable_roots(
        vec![
            " ~/Library/Caches/x ".to_owned(),
            "".to_owned(),
            "/tmp/patchbay-browser".to_owned(),
            "~/Library/Caches/x".to_owned(),
        ],
        Some("/Users/me"),
    )
    .unwrap();
    assert_eq!(roots, vec!["/Users/me/Library/Caches/x", "/tmp/patchbay-browser"]);
    assert_eq!(
        normalize_agent_extra_writable_roots(vec![" relative/dir ".to_owned()], None).unwrap_err().message(),
        "agent extra writable root 'relative/dir' must resolve to an absolute path"
    );
    assert_eq!(
        parse_agent_extra_writable_roots_text("/a\r\n\n/b\n/a\n", None).unwrap(),
        vec!["/a", "/b"]
    );
    assert_eq!(serialize_agent_extra_writable_roots(&vec!["/a".to_owned(), "/b".to_owned()]), "/a\n/b");
    assert!(path_starts_with_exec("/home/me/.patchbay/db", "/home/me"));
    assert!(path_starts_with_exec("/home/me/.patchbay/db", "/home//me/"));
    assert!(path_starts_with_exec("/home/me/./x", "/home/me/x"));
    assert!(!path_starts_with_exec("/home/me2/db", "/home/me"));
    assert!(!path_starts_with_exec("relative/db", "/"));
    let err = validate_agent_extra_writable_roots_do_not_include_database(
        &vec!["/tmp".to_owned(), "/home/me".to_owned()],
        "/home/me/.patchbay/patchbay.sqlite3",
    )
    .unwrap_err()
    .message();
    assert!(err.contains("includes Patchbay database"));
    assert!(err.contains("'/home/me'"));
}

fn efforts() -> Vec<String> {
    vec!["low".to_owned(), "medium".to_owned(), "high".to_owned(), "xhigh".to_owned()]
}

fn stored() -> ProjectSettingsRecord {
    ProjectSettingsRecord {
        workspace_mode: "current_branch".to_owned(),
        max_code_edit_agents: 1,
        max_read_only_agents: 2,
        create_pr: false,
        auto_commit: true,
        commit_standard: String::new(),
        revert_strategy: "manual".to_owned(),
        stale_claim_minutes: 0,
        worktree_cleanup_policy: "manual".to_owned(),
        default_agent_tool: "codex".to_owned(),
        default_agent_model: Some("gpt-5.4".to_owned()),
        default_agent_reasoning_effort: Some("high".to_owned()),
        agent_sandbox_mode: "workspace_write".to_owned(),
        agent_extra_writable_roots: String::new(),
        agent_git_command_policy: String::new(),
    }
}

#[test]
fn settings_update_resolves_and_checks() {
    let m = models();
    let err = resolve_settings_update(&stored(), UpdateProjectSettings::default(), "/db/p.sqlite3", None, &m, &efforts(), "{}")
        .unwrap_err()
        .message();
    assert_eq!(err, "project settings update requires at least one field");

    let update = UpdateProjectSettings {
        workspace_mode: Some(WorkspaceMode::GitBranch),
        create_pr: Some(true),
        commit_standard: Some(" Use Conventional Commits. ".to_owned()),
        revert_strategy: Some(RevertStrategy::GitReset),
        agent_sandbox_mode: Some(AgentSandboxMode::DangerFullAccess),
        agent_extra_writable_roots: Some(vec![" ~/cache ".to_owned(), "/tmp/patchbay-browser".to_owned()]),
        ..UpdateProjectSettings::default()
    };
    let rec = resolve_settings_update(&stored(), update, "/db/p.sqlite3", Some("/Users/me"), &m, &efforts(), "{}").unwrap();
    assert_eq!(rec.workspace_mode, "git_branch");
    assert!(rec.create_pr);
    assert_eq!(rec.commit_standard, "Use Conventional Commits.");
    assert_eq!(rec.revert_strategy, "git_reset");
    assert_eq!(rec.agent_sandbox_mode, "danger_full_access");
    assert_eq!(rec.agent_extra_writable_roots, "/Users/me/cache\n/tmp/patchbay-browser");
    assert_eq!(rec.agent_git_command_policy, "{}");
    assert_eq!(rec.default_agent_model.as_deref(), Some("gpt-5.4"));

    let zero = UpdateProjectSettings {
        max_code_edit_agents: Some(0),
        ..UpdateProjectSettings::default()
    };
    assert!(resolve_settings_update(&stored(), zero, "/db/p.sqlite3", None, &m, &efforts(), "{}")
        .unwrap_err()
        .message()
        .contains("at least 1"));

    let db_root = UpdateProjectSettings {
        agent_extra_writable_roots: Some(vec!["/db".to_owned()]),
        ..UpdateProjectSettings::default()
    };
    assert!(resolve_settings_update(&stored(), db_root, "/db/p.sqlite3", None, &m, &efforts(), "{}")
        .unwrap_err()
        .message()
        .contains("includes Patchbay database"));

    let mut broken = stored();
    broken.workspace_mode = "sideways".to_owned();
    let any = UpdateProjectSettings {
        auto_commit: Some(false),
        ..UpdateProjectSettings::default()
    };
    assert_eq!(
        resolve_settings_update(&broken, any, "/db/p.sqlite3", None, &m, &efforts(), "{}").unwrap_err().message(),
        "invalid workspace mode 'sideways'"
    );
}

#[test]
fn new_projects_get_safe_defaults() {
    let m = models();
    let rec = new_project_settings(None, None, "gpt-5.4", "xhigh", &m, "{}").unwrap();
    assert_eq!(rec.workspace_mode, "current_branch");
    assert_eq!(rec.max_code_edit_agents, 1);
    assert_eq!(rec.max_read_only_agents, 2);
    assert!(!rec.create_pr);
    assert!(rec.auto_commit);
    assert_eq!(rec.revert_strategy, "manual");
    assert_eq!(rec.worktree_cleanup_policy, "manual");
    assert_eq!(rec.default_agent_tool, "codex");
    assert_eq!(rec.default_agent_model.as_deref(), Some("gpt-5.4"));
    assert_eq!(rec.default_agent_reasoning_effort.as_deref(), Some("xhigh"));
    assert_eq!(rec.agent_sandbox_mode, "workspace_write");
    let chosen = new_project_settings(Some(" gpt-5.4-mini ".to_owned()), Some("high".to_owned()), "gpt-5.4", "xhigh", &m, "{}")
        .unwrap();
    assert_eq!(chosen.default_agent_model.as_deref(), Some("gpt-5.4-mini"));
    assert_eq!(chosen.default_agent_reasoning_effort.as_deref(), Some("high"));
    assert!(new_project_settings(Some("gpt-4.1-codex".to_owned()), None, "gpt-5.4", "xhigh", &m, "{}")
        .unwrap_err()
        .message()
        .contains("default agent model must be one of"));
}

#[test]
fn change_sources_and_memory() {
    let agent = ProjectChangeSource::Agent {
        agent_id: "patchbay-run-42".to_owned(),
        agent_run_id: None,
    };
    assert_eq!(agent.actor_type(), "agent");
    assert_eq!(agent.actor_id(), Some("patchbay-run-42"));
    assert_eq!(agent.agent_run_id(), Some(42));
    let given = ProjectChangeSource::Agent {
        agent_id: "codex-worker".to_owned(),
        agent_run_id: Some(77),
    };
    assert_eq!(given.agent_run_id(), Some(77));
    assert_eq!(ProjectChangeSource::User.actor_type(), "user");
    assert_eq!(ProjectChangeSource::System.agent_run_id(), None);
    assert_eq!(infer_agent_run_id("patchbay-run--3"), Some(-3));
    assert_eq!(infer_agent_run_id("patchbay-run-+0"), Some(0));
    assert_eq!(infer_agent_run_id("patchbay-run--9223372036854775808"), Some(i64::MIN));
    assert_eq!(infer_agent_run_id("patchbay-run-9223372036854775808"), None);
    assert_eq!(infer_agent_run_id("patchbay-run--"), None);
    assert_eq!(changed_memory("append", "Old.", "New.".to_owned()), "Old.\n\nNew.");
    assert_eq!(changed_memory("append", "  ", "New.".to_owned()), "New.");
    assert_eq!(changed_memory("set", "Old.", "New.".to_owned()), "New.");
    assert_eq!(
        check_memory_append_body(" ").unwrap_err().message(),
        "project memory append body cannot be empty"
    );
}

#[test]
fn change_events_show_their_parsed_body_or_the_raw_text() {
    let parsed = ChangedBody { operation: "append".to_owned(), text: "notes".to_owned() };
    assert_eq!(
        changed_event_fields("{\"operation\":\"append\"}", Some(parsed)),
        ("append".to_owned(), "notes".to_owned())
    );
    assert_eq!(
        changed_event_fields("plain text", None),
        ("unknown".to_owned(), "plain text".to_owned())
    );
}

#[test]
fn refused_settings_updates_name_the_first_failed_check() {
    let m = models();
    let negative = UpdateProjectSettings { max_read_only_agents: Some(-1), ..UpdateProjectSettings::default() };
    assert_eq!(
        resolve_settings_update(&stored(), negative, "/db/p.sqlite3", None, &m, &efforts(), "{}").unwrap_err().message(),
        "max read-only agents cannot be negative"
    );

    // The database check comes before the rules.
    let both = UpdateProjectSettings {
        max_code_edit_agents: Some(0),
        agent_extra_writable_roots: Some(vec!["/x".to_owned(), "/db".to_owned(), "/".to_owned()]),
        ..UpdateProjectSettings::default()
    };
    assert_eq!(
        resolve_settings_update(&stored(), both, "/db/p.sqlite3", None, &m, &efforts(), "{}").unwrap_err().message(),
        "agent extra writable root '/db' includes Patchbay database /db/p.sqlite3; choose a narrower directory"
    );

    // A relative root is refused before the database check.
    let relative = UpdateProjectSettings {
        agent_extra_writable_roots: Some(vec!["/db".to_owned(), " cache ".to_owned()]),
        ..UpdateProjectSettings::default()
    };
    assert_eq!(
        resolve_settings_update(&stored(), relative, "/db/p.sqlite3", None, &m, &efforts(), "{}").unwrap_err().message(),
        "agent extra writable root 'cache' must resolve to an absolute path"
    );

    let mut broken = stored();
    broken.revert_strategy = "undo".to_owned();
    let any = UpdateProjectSettings { auto_commit: Some(false), ..UpdateProjectSettings::default() };
    assert_eq!(
        resolve_settings_update(&broken, any, "/db/p.sqlite3", None, &m, &efforts(), "{}").unwrap_err().message(),
        "invalid revert strategy 'undo'"
    );

    let unknown = UpdateProjectSettings { default_agent_model: Some(Some("gpt-4".to_owned())), ..UpdateProjectSettings::default() };
    assert_eq!(
        resolve_settings_update(&stored(), unknown, "/db/p.sqlite3", None, &m, &efforts(), "{}").unwrap_err().message(),
        "default agent model must be one of: gpt-5.4, gpt-5.4-mini"
    );
}

#[test]
fn home_expansion_joins_as_paths_do() {
    assert_eq!(expand_home_path_with("~//x", Some("/h")), "/x");
    assert_eq!(expand_home_path_with("~/x", Some("/h/")), "/h/x");
    assert_eq!(expand_home_path_with("~/", Some("/h")), "/h/");
}

#[test]
fn an_unknown_stored_effort_is_refused_unless_replaced() {
    let m = models();
    let mut odd = stored();
    odd.default_agent_reasoning_effort = Some("extreme".to_owned());
    let keep = UpdateProjectSettings { auto_commit: Some(false), ..UpdateProjectSettings::default() };
    assert_eq!(
        resolve_settings_update(&odd, keep, "/db/p.sqlite3", None, &m, &efforts(), "{}").unwrap_err().message(),
        "invalid agent reasoning effort 'extreme'"
    );
    let replace = UpdateProjectSettings {
        default_agent_reasoning_effort: Some(Some("low".to_owned())),
        ..UpdateProjectSettings::default()
    };
    let rec = resolve_settings_update(&odd, replace, "/db/p.sqlite3", None, &m, &efforts(), "{}").unwrap();
    assert_eq!(rec.default_agent_reasoning_effort.as_deref(), Some("low"));
    let kept = resolve_settings_update(&stored(), UpdateProjectSettings { auto_commit: Some(false), ..UpdateProjectSettings::default() }, "/db/p.sqlite3", None, &m, &efforts(), "{}").unwrap();
    assert_eq!(kept.default_agent_reasoning_effort.as_deref(), Some("high"));
}
