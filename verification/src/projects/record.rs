use vstd::prelude::*;

use crate::items::updates::{normalize_optional, normalized_optional, opt_seq};
use crate::projects::errors::{ProjectError, ProjectErrorView};
use crate::projects::roots::{
    normalize_agent_extra_writable_roots, normalized_roots, parse_agent_extra_writable_roots_text,
    path_starts_with, serialize_agent_extra_writable_roots,
    validate_agent_extra_writable_roots_do_not_include_database,
};
use crate::projects::settings::{
    agent_tool_text, cleanup_policy_text, revert_strategy_text, sandbox_mode_text,
    settings_rule_error, validate_settings, workspace_mode_text, AgentSandboxMode, AgentToolName,
    RevertStrategy, WorkspaceMode, WorktreeCleanupPolicy,
};
use crate::rich_text::split_on;
use crate::text::{contains_str, is_blank, join, trim, trim_str, views};

verus! {

broadcast use vstd::std_specs::vec::group_vec_axioms;

/// The run settings of a project as they are stored: kinds by their stored
/// names, the writable roots one per line, the git command policy as JSON.
#[derive(Clone, Debug)]
pub struct ProjectSettingsRecord {
    pub workspace_mode: String,
    pub max_code_edit_agents: i64,
    pub max_read_only_agents: i64,
    pub create_pr: bool,
    pub auto_commit: bool,
    pub commit_standard: String,
    pub revert_strategy: String,
    pub stale_claim_minutes: i64,
    pub worktree_cleanup_policy: String,
    pub default_agent_tool: String,
    pub default_agent_model: Option<String>,
    pub default_agent_reasoning_effort: Option<String>,
    pub agent_sandbox_mode: String,
    pub agent_extra_writable_roots: String,
    pub agent_git_command_policy: String,
}

/// A requested change of run settings; `None` keeps a setting.
#[derive(Clone, Debug)]
pub struct UpdateProjectSettings {
    pub workspace_mode: Option<WorkspaceMode>,
    pub max_code_edit_agents: Option<i64>,
    pub max_read_only_agents: Option<i64>,
    pub create_pr: Option<bool>,
    pub auto_commit: Option<bool>,
    pub commit_standard: Option<String>,
    pub revert_strategy: Option<RevertStrategy>,
    pub stale_claim_minutes: Option<i64>,
    pub worktree_cleanup_policy: Option<WorktreeCleanupPolicy>,
    pub default_agent_tool: Option<AgentToolName>,
    pub default_agent_model: Option<Option<String>>,
    /// The stored name of the new default reasoning effort, or `Some(None)` to clear it.
    pub default_agent_reasoning_effort: Option<Option<String>>,
    pub agent_sandbox_mode: Option<AgentSandboxMode>,
    pub agent_extra_writable_roots: Option<Vec<String>>,
    /// The new git command policy, as JSON.
    pub agent_git_command_policy: Option<String>,
}

impl Default for UpdateProjectSettings {
    /// An update that changes nothing.
    fn default() -> (u: UpdateProjectSettings)
        ensures
            u.is_empty(),
    {
        UpdateProjectSettings {
            workspace_mode: None,
            max_code_edit_agents: None,
            max_read_only_agents: None,
            create_pr: None,
            auto_commit: None,
            commit_standard: None,
            revert_strategy: None,
            stale_claim_minutes: None,
            worktree_cleanup_policy: None,
            default_agent_tool: None,
            default_agent_model: None,
            default_agent_reasoning_effort: None,
            agent_sandbox_mode: None,
            agent_extra_writable_roots: None,
            agent_git_command_policy: None,
        }
    }
}

impl UpdateProjectSettings {
    /// Whether the update changes nothing.
    pub open spec fn is_empty(self) -> bool {
        &&& self.workspace_mode is None
        &&& self.max_code_edit_agents is None
        &&& self.max_read_only_agents is None
        &&& self.create_pr is None
        &&& self.auto_commit is None
        &&& self.commit_standard is None
        &&& self.revert_strategy is None
        &&& self.stale_claim_minutes is None
        &&& self.worktree_cleanup_policy is None
        &&& self.default_agent_tool is None
        &&& self.default_agent_model is None
        &&& self.default_agent_reasoning_effort is None
        &&& self.agent_sandbox_mode is None
        &&& self.agent_extra_writable_roots is None
        &&& self.agent_git_command_policy is None
    }
}

/// Whether `text` is the stored name of some value of a kind, by the kind's names.
pub open spec fn names_workspace_mode(text: Seq<char>) -> bool {
    exists|m: WorkspaceMode| workspace_mode_text(m) == text
}

/// Whether `text` is the stored name of a revert strategy.
pub open spec fn names_revert_strategy(text: Seq<char>) -> bool {
    exists|m: RevertStrategy| revert_strategy_text(m) == text
}

/// Whether `text` is the stored name of a cleanup policy.
pub open spec fn names_cleanup_policy(text: Seq<char>) -> bool {
    exists|m: WorktreeCleanupPolicy| cleanup_policy_text(m) == text
}

/// Whether `text` is the stored name of an agent tool.
pub open spec fn names_agent_tool(text: Seq<char>) -> bool {
    exists|m: AgentToolName| agent_tool_text(m) == text
}

/// Whether `text` is the stored name of a sandbox mode.
pub open spec fn names_sandbox_mode(text: Seq<char>) -> bool {
    exists|m: AgentSandboxMode| sandbox_mode_text(m) == text
}

/// The stored git command policy as it is read: a blank one stands for the default.
pub open spec fn stored_policy(text: Seq<char>, default_policy: Seq<char>) -> Seq<char> {
    if trim(text).len() == 0 { default_policy } else { trim(text) }
}

/// The writable roots an update leaves, normalised: the new ones, or the stored ones.
pub open spec fn roots_after(existing: ProjectSettingsRecord, update: UpdateProjectSettings, home: Option<Seq<char>>) -> Result<Seq<Seq<char>>, Seq<char>> {
    match update.agent_extra_writable_roots {
        Some(v) => normalized_roots(views(v@), home),
        None => normalized_roots(split_on(existing.agent_extra_writable_roots@, "\n"@), home),
    }
}

/// The default model an update leaves, normalised.
pub open spec fn model_after(existing: ProjectSettingsRecord, update: UpdateProjectSettings) -> Option<Seq<char>> {
    match update.default_agent_model {
        Some(m) => normalized_optional(opt_seq(m)),
        None => normalized_optional(opt_seq(existing.default_agent_model)),
    }
}

/// The workspace mode an update leaves (the stored one read by its name).
pub open spec fn mode_after(existing: ProjectSettingsRecord, update: UpdateProjectSettings) -> WorkspaceMode {
    match update.workspace_mode {
        Some(m) => m,
        None => choose|m: WorkspaceMode| workspace_mode_text(m) == existing.workspace_mode@,
    }
}

/// Whether the stored reasoning effort can be read where the update keeps
/// it: it is absent, or one of the known effort names.
pub open spec fn effort_known(existing: ProjectSettingsRecord, replaced: bool, known: Seq<Seq<char>>) -> bool {
    replaced || match existing.default_agent_reasoning_effort {
        Some(t) => known.contains(t@),
        None => true,
    }
}

/// Whether a settings update is accepted: it changes something, the stored
/// kinds are known, the roots normalise and keep clear of the database, and
/// the resulting settings keep the rules and name an available model.
pub open spec fn settings_update_accepted(
    existing: ProjectSettingsRecord,
    update: UpdateProjectSettings,
    database_path: Seq<char>,
    home: Option<Seq<char>>,
    available: Seq<Seq<char>>,
    known_efforts: Seq<Seq<char>>,
) -> bool {
    let roots = roots_after(existing, update, home);
    let max_code = match update.max_code_edit_agents { Some(v) => v, None => existing.max_code_edit_agents };
    let max_ro = match update.max_read_only_agents { Some(v) => v, None => existing.max_read_only_agents };
    let create_pr = match update.create_pr { Some(v) => v, None => existing.create_pr };
    let stale = match update.stale_claim_minutes { Some(v) => v, None => existing.stale_claim_minutes };
    &&& !update.is_empty()
    &&& names_workspace_mode(existing.workspace_mode@)
    &&& names_revert_strategy(existing.revert_strategy@)
    &&& names_cleanup_policy(existing.worktree_cleanup_policy@)
    &&& names_agent_tool(existing.default_agent_tool@)
    &&& effort_known(existing, update.default_agent_reasoning_effort is Some, known_efforts)
    &&& names_sandbox_mode(existing.agent_sandbox_mode@)
    &&& roots is Ok
    &&& forall|i: int| 0 <= i < roots->Ok_0.len() ==> !path_starts_with(database_path, #[trigger] roots->Ok_0[i])
    &&& settings_rule_error(mode_after(existing, update), max_code, max_ro, create_pr, stale) is None
    &&& match model_after(existing, update) {
        Some(m) => trim(m).len() > 0 && available.contains(m),
        None => true,
    }
}

/// The error for the first stored kind, in the order workspace mode, revert
/// strategy, worktree cleanup policy, agent tool, reasoning effort (read only
/// where the update does not replace it) and sandbox mode, that is not one of
/// its kind's names.
pub open spec fn stored_kind_error(
    existing: ProjectSettingsRecord,
    effort_replaced: bool,
    known_efforts: Seq<Seq<char>>,
) -> Option<ProjectErrorView> {
    if !names_workspace_mode(existing.workspace_mode@) {
        Some(ProjectErrorView::InvalidStoredValue("workspace mode"@, existing.workspace_mode@))
    } else if !names_revert_strategy(existing.revert_strategy@) {
        Some(ProjectErrorView::InvalidStoredValue("revert strategy"@, existing.revert_strategy@))
    } else if !names_cleanup_policy(existing.worktree_cleanup_policy@) {
        Some(ProjectErrorView::InvalidStoredValue("worktree cleanup policy"@, existing.worktree_cleanup_policy@))
    } else if !names_agent_tool(existing.default_agent_tool@) {
        Some(ProjectErrorView::InvalidStoredValue("agent tool"@, existing.default_agent_tool@))
    } else if !effort_known(existing, effort_replaced, known_efforts) {
        Some(ProjectErrorView::InvalidStoredValue(
            "agent reasoning effort"@,
            existing.default_agent_reasoning_effort->Some_0@,
        ))
    } else if !names_sandbox_mode(existing.agent_sandbox_mode@) {
        Some(ProjectErrorView::InvalidStoredValue("agent sandbox mode"@, existing.agent_sandbox_mode@))
    } else {
        None
    }
}

/// Whether some root contains the database file.
pub open spec fn some_root_holds(roots: Seq<Seq<char>>, database_path: Seq<char>) -> bool {
    exists|i: int| 0 <= i < roots.len() && path_starts_with(database_path, #[trigger] roots[i])
}

/// The index of the first root that contains the database file.
pub open spec fn first_database_root(roots: Seq<Seq<char>>, database_path: Seq<char>) -> int {
    choose|i: int|
        0 <= i < roots.len() && path_starts_with(database_path, #[trigger] roots[i]) && forall|j: int|
            0 <= j < i ==> !path_starts_with(database_path, #[trigger] roots[j])
}

/// The error a refused settings update gives: the first refusal in the order
/// the checks run. An empty update; the first unknown stored kind; a root
/// that does not normalise (by its trimmed text); the first root that
/// contains the database; the first rule of `settings_rule_error` that the
/// resulting settings break; a blank or unavailable default model (listing
/// the available models).
#[verifier::opaque]
pub open spec fn first_settings_error(
    existing: ProjectSettingsRecord,
    update: UpdateProjectSettings,
    database_path: Seq<char>,
    home: Option<Seq<char>>,
    available: Seq<Seq<char>>,
    known_efforts: Seq<Seq<char>>,
) -> ProjectErrorView {
    let max_code = match update.max_code_edit_agents { Some(v) => v, None => existing.max_code_edit_agents };
    let max_ro = match update.max_read_only_agents { Some(v) => v, None => existing.max_read_only_agents };
    let create_pr = match update.create_pr { Some(v) => v, None => existing.create_pr };
    let stale = match update.stale_claim_minutes { Some(v) => v, None => existing.stale_claim_minutes };
    if update.is_empty() {
        ProjectErrorView::SettingsUpdateEmpty
    } else if stored_kind_error(existing, update.default_agent_reasoning_effort is Some, known_efforts) is Some {
        stored_kind_error(existing, update.default_agent_reasoning_effort is Some, known_efforts)->Some_0
    } else {
        match roots_after(existing, update, home) {
            Err(bad) => ProjectErrorView::RootNotAbsolute(bad),
            Ok(rs) => if some_root_holds(rs, database_path) {
                ProjectErrorView::RootIncludesDatabase(rs[first_database_root(rs, database_path)], database_path)
            } else {
                match settings_rule_error(mode_after(existing, update), max_code, max_ro, create_pr, stale) {
                    Some(e) => e@,
                    None => match model_after(existing, update) {
                        Some(m) => if trim(m).len() == 0 {
                            ProjectErrorView::ModelEmpty
                        } else {
                            ProjectErrorView::ModelUnknown(join(available, ", "@))
                        },
                        None => ProjectErrorView::SettingsUpdateEmpty,
                    },
                }
            },
        }
    }
}

fn invalid(field: &str, value: &String) -> (e: ProjectError)
    ensures
        e matches ProjectError::InvalidStoredValue(f, v) && f@ == field@ && v@ == value@,
{
    ProjectError::InvalidStoredValue(field.to_string(), crate::text::copy_string(value))
}

/// The kinds a stored settings record names.
pub struct StoredKinds {
    pub workspace_mode: WorkspaceMode,
    pub revert_strategy: RevertStrategy,
    pub worktree_cleanup_policy: WorktreeCleanupPolicy,
    pub default_agent_tool: AgentToolName,
    pub agent_sandbox_mode: AgentSandboxMode,
}

/// Whether every kind of a stored record is known.
pub open spec fn kinds_known(existing: ProjectSettingsRecord, effort_replaced: bool, known_efforts: Seq<Seq<char>>) -> bool {
    &&& names_workspace_mode(existing.workspace_mode@)
    &&& names_revert_strategy(existing.revert_strategy@)
    &&& names_cleanup_policy(existing.worktree_cleanup_policy@)
    &&& names_agent_tool(existing.default_agent_tool@)
    &&& effort_known(existing, effort_replaced, known_efforts)
    &&& names_sandbox_mode(existing.agent_sandbox_mode@)
}

/// Reads the kinds of a stored record, refusing the first unknown one.
fn read_stored_kinds(
    existing: &ProjectSettingsRecord,
    effort_replaced: bool,
    known_efforts: &Vec<String>,
) -> (r: Result<StoredKinds, ProjectError>)
    ensures
        r is Ok <==> kinds_known(*existing, effort_replaced, views(known_efforts@)),
        r matches Err(e) ==> stored_kind_error(*existing, effort_replaced, views(known_efforts@)) == Some(e@),
        r matches Ok(k) ==> {
            &&& workspace_mode_text(k.workspace_mode) == existing.workspace_mode@
            &&& (choose|m: WorkspaceMode| workspace_mode_text(m) == existing.workspace_mode@) == k.workspace_mode
            &&& revert_strategy_text(k.revert_strategy) == existing.revert_strategy@
            &&& cleanup_policy_text(k.worktree_cleanup_policy) == existing.worktree_cleanup_policy@
            &&& agent_tool_text(k.default_agent_tool) == existing.default_agent_tool@
            &&& sandbox_mode_text(k.agent_sandbox_mode) == existing.agent_sandbox_mode@
        },
{
    let workspace_mode = match WorkspaceMode::from_storage(existing.workspace_mode.as_str()) {
        Some(m) => m,
        None => return Err(invalid("workspace mode", &existing.workspace_mode)),
    };
    let revert_strategy = match RevertStrategy::from_storage(existing.revert_strategy.as_str()) {
        Some(m) => m,
        None => return Err(invalid("revert strategy", &existing.revert_strategy)),
    };
    let worktree_cleanup_policy = match WorktreeCleanupPolicy::from_storage(existing.worktree_cleanup_policy.as_str()) {
        Some(m) => m,
        None => return Err(invalid("worktree cleanup policy", &existing.worktree_cleanup_policy)),
    };
    let default_agent_tool = match AgentToolName::from_storage(existing.default_agent_tool.as_str()) {
        Some(m) => m,
        None => return Err(invalid("agent tool", &existing.default_agent_tool)),
    };
    if !effort_replaced {
        match &existing.default_agent_reasoning_effort {
            Some(t) => {
                if !contains_str(known_efforts, t.as_str()) {
                    return Err(invalid("agent reasoning effort", t));
                }
            },
            None => {},
        }
    }
    let agent_sandbox_mode = match AgentSandboxMode::from_storage(existing.agent_sandbox_mode.as_str()) {
        Some(m) => m,
        None => return Err(invalid("agent sandbox mode", &existing.agent_sandbox_mode)),
    };
    proof {
        assert(names_workspace_mode(existing.workspace_mode@));
        assert(names_revert_strategy(existing.revert_strategy@));
        assert(names_cleanup_policy(existing.worktree_cleanup_policy@));
        assert(names_agent_tool(existing.default_agent_tool@));
        assert(effort_known(*existing, effort_replaced, views(known_efforts@)));
        assert(names_sandbox_mode(existing.agent_sandbox_mode@));
        crate::projects::settings::lemma_settings_storage_round_trip(
            workspace_mode,
            revert_strategy,
            worktree_cleanup_policy,
            default_agent_tool,
            agent_sandbox_mode,
        );
        let chosen = choose|m: WorkspaceMode| workspace_mode_text(m) == existing.workspace_mode@;
        assert(workspace_mode_text(chosen) == workspace_mode_text(workspace_mode));
    }
    Ok(StoredKinds { workspace_mode, revert_strategy, worktree_cleanup_policy, default_agent_tool, agent_sandbox_mode })
}

/// The git command policy an update leaves.
fn policy_after(existing: &ProjectSettingsRecord, update: Option<String>, default_policy: &str) -> (r: String)
    ensures
        r@ == match update {
            Some(p) => p@,
            None => stored_policy(existing.agent_git_command_policy@, default_policy@),
        },
{
    match update {
        Some(p) => p,
        None => {
            let t = trim_str(existing.agent_git_command_policy.as_str());
            proof {
                crate::display::labels::lemma_trim_idempotent(existing.agent_git_command_policy@);
            }
            if is_blank(t.as_str()) {
                default_policy.to_string()
            } else {
                t
            }
        },
    }
}

/// Works out a project's run settings after `update`, then checks them.
///
/// In order: an update must change something; the stored kinds must all be
/// known (read even where the update replaces them, except the reasoning
/// effort, which is read against `known_efforts` only where it is kept);
/// the writable roots (the
/// new ones, or the stored ones one per line) are normalised; none may contain
/// the database file `database_path`; the settings must keep the rules of
/// `validate_settings`, the default model included. Unchanged settings keep
/// their stored values; a new commit standard is trimmed; the default model is
/// normalised; a blank stored git command policy reads as `default_policy`.
/// A stored policy that is not blank is kept as its trimmed text: whether it
/// reads as a policy is not checked here.
#[verifier::rlimit(80)]
#[verifier::spinoff_prover]
pub fn resolve_settings_update(
    existing: &ProjectSettingsRecord,
    update: UpdateProjectSettings,
    database_path: &str,
    home: Option<&str>,
    available_models: &Vec<String>,
    known_efforts: &Vec<String>,
    default_policy: &str,
) -> (r: Result<ProjectSettingsRecord, ProjectError>)
    ensures
        r is Ok <==> settings_update_accepted(
            *existing,
            update,
            database_path@,
            match home { Some(x) => Some(x@), None => None },
            views(available_models@),
            views(known_efforts@),
        ),
        r matches Err(e) ==> e@ == first_settings_error(
            *existing,
            update,
            database_path@,
            match home { Some(x) => Some(x@), None => None },
            views(available_models@),
            views(known_efforts@),
        ),
        r matches Ok(rec) ==> {
            let h = match home { Some(x) => Some(x@), None => None };
            let roots = match update.agent_extra_writable_roots {
                Some(v) => normalized_roots(views(v@), h),
                None => normalized_roots(split_on(existing.agent_extra_writable_roots@, "\n"@), h),
            };
            let mode = match update.workspace_mode {
                Some(m) => m,
                None => choose|m: WorkspaceMode| workspace_mode_text(m) == existing.workspace_mode@,
            };
            let max_code = match update.max_code_edit_agents { Some(v) => v, None => existing.max_code_edit_agents };
            let max_ro = match update.max_read_only_agents { Some(v) => v, None => existing.max_read_only_agents };
            let create_pr = match update.create_pr { Some(v) => v, None => existing.create_pr };
            let stale = match update.stale_claim_minutes { Some(v) => v, None => existing.stale_claim_minutes };
            &&& !update.is_empty()
            &&& names_workspace_mode(existing.workspace_mode@)
            &&& names_revert_strategy(existing.revert_strategy@)
            &&& names_cleanup_policy(existing.worktree_cleanup_policy@)
            &&& names_agent_tool(existing.default_agent_tool@)
            &&& effort_known(*existing, update.default_agent_reasoning_effort is Some, views(known_efforts@))
            &&& names_sandbox_mode(existing.agent_sandbox_mode@)
            &&& roots matches Ok(rs)
            &&& rec.agent_extra_writable_roots@ == join(roots->Ok_0, "\n"@)
            &&& forall|i: int| 0 <= i < roots->Ok_0.len() ==> !path_starts_with(database_path@, #[trigger] roots->Ok_0[i])
            &&& settings_rule_error(mode, max_code, max_ro, create_pr, stale) is None
            &&& rec.workspace_mode@ == workspace_mode_text(mode)
            &&& rec.max_code_edit_agents == max_code
            &&& rec.max_read_only_agents == max_ro
            &&& rec.create_pr == create_pr
            &&& rec.stale_claim_minutes == stale
            &&& rec.auto_commit == match update.auto_commit { Some(v) => v, None => existing.auto_commit }
            &&& rec.commit_standard@ == match update.commit_standard { Some(c) => trim(c@), None => existing.commit_standard@ }
            &&& rec.revert_strategy@ == match update.revert_strategy { Some(m) => revert_strategy_text(m), None => existing.revert_strategy@ }
            &&& rec.worktree_cleanup_policy@ == match update.worktree_cleanup_policy { Some(m) => cleanup_policy_text(m), None => existing.worktree_cleanup_policy@ }
            &&& rec.default_agent_tool@ == match update.default_agent_tool { Some(m) => agent_tool_text(m), None => existing.default_agent_tool@ }
            &&& rec.agent_sandbox_mode@ == match update.agent_sandbox_mode { Some(m) => sandbox_mode_text(m), None => existing.agent_sandbox_mode@ }
            &&& opt_seq(rec.default_agent_model) == match update.default_agent_model {
                Some(m) => normalized_optional(opt_seq(m)),
                None => normalized_optional(opt_seq(existing.default_agent_model)),
            }
            &&& match opt_seq(rec.default_agent_model) {
                Some(m) => trim(m).len() > 0 && views(available_models@).contains(m),
                None => true,
            }
            &&& rec.default_agent_reasoning_effort == match update.default_agent_reasoning_effort {
                Some(e) => e,
                None => existing.default_agent_reasoning_effort,
            }
            &&& rec.agent_git_command_policy@ == match update.agent_git_command_policy {
                Some(p) => p@,
                None => stored_policy(existing.agent_git_command_policy@, default_policy@),
            }
        },
{
    let ghost up = update;
    let ghost h = match home { Some(x) => Some(x@), None => None };
    let ghost av = views(available_models@);
    let ghost fe = first_settings_error(*existing, up, database_path@, h, av, views(known_efforts@));
    if update.workspace_mode.is_none() && update.max_code_edit_agents.is_none() && update.max_read_only_agents.is_none()
        && update.create_pr.is_none() && update.auto_commit.is_none() && update.commit_standard.is_none()
        && update.revert_strategy.is_none() && update.stale_claim_minutes.is_none()
        && update.worktree_cleanup_policy.is_none() && update.default_agent_tool.is_none()
        && update.default_agent_model.is_none() && update.default_agent_reasoning_effort.is_none()
        && update.agent_sandbox_mode.is_none() && update.agent_extra_writable_roots.is_none()
        && update.agent_git_command_policy.is_none() {
        proof {
            assert(fe == ProjectErrorView::SettingsUpdateEmpty) by {
                reveal(first_settings_error);
            }
        }
        return Err(ProjectError::SettingsUpdateEmpty);
    }
    let kinds = match read_stored_kinds(existing, update.default_agent_reasoning_effort.is_some(), known_efforts) {
        Ok(k) => k,
        Err(e) => {
            proof {
                assert(e@ == fe) by {
                    reveal(first_settings_error);
                }
            }
            return Err(e);
        },
    };
    let stored_mode = kinds.workspace_mode;
    let workspace_mode = match update.workspace_mode {
        Some(m) => m,
        None => stored_mode,
    };
    let max_code_edit_agents = match update.max_code_edit_agents {
        Some(v) => v,
        None => existing.max_code_edit_agents,
    };
    let max_read_only_agents = match update.max_read_only_agents {
        Some(v) => v,
        None => existing.max_read_only_agents,
    };
    let create_pr = match update.create_pr {
        Some(v) => v,
        None => existing.create_pr,
    };
    let auto_commit = match update.auto_commit {
        Some(v) => v,
        None => existing.auto_commit,
    };
    let commit_standard = match &update.commit_standard {
        Some(c) => trim_str(c.as_str()),
        None => crate::text::copy_string(&existing.commit_standard),
    };
    let stored_revert = kinds.revert_strategy;
    let revert_strategy = match update.revert_strategy {
        Some(m) => m,
        None => stored_revert,
    };
    let stale_claim_minutes = match update.stale_claim_minutes {
        Some(v) => v,
        None => existing.stale_claim_minutes,
    };
    let stored_cleanup = kinds.worktree_cleanup_policy;
    let worktree_cleanup_policy = match update.worktree_cleanup_policy {
        Some(m) => m,
        None => stored_cleanup,
    };
    let stored_tool = kinds.default_agent_tool;
    let default_agent_tool = match update.default_agent_tool {
        Some(m) => m,
        None => stored_tool,
    };
    let default_agent_model = match update.default_agent_model {
        Some(m) => normalize_optional(m),
        None => normalize_optional(existing.default_agent_model.clone()),
    };
    let default_agent_reasoning_effort = match update.default_agent_reasoning_effort {
        Some(e) => e,
        None => existing.default_agent_reasoning_effort.clone(),
    };
    let stored_sandbox = kinds.agent_sandbox_mode;
    let agent_sandbox_mode = match update.agent_sandbox_mode {
        Some(m) => m,
        None => stored_sandbox,
    };
    let roots = match update.agent_extra_writable_roots {
        Some(v) => normalize_agent_extra_writable_roots(v, home),
        None => parse_agent_extra_writable_roots_text(existing.agent_extra_writable_roots.as_str(), home),
    };
    let roots = match roots {
        Ok(v) => v,
        Err(e) => {
            proof {
                assert(e@ == fe) by {
                    reveal(first_settings_error);
                }
            }
            return Err(e);
        },
    };
    let agent_git_command_policy = policy_after(existing, update.agent_git_command_policy, default_policy);
    match validate_agent_extra_writable_roots_do_not_include_database(&roots, database_path) {
        Ok(()) => {},
        Err(e) => {
            proof {
                let rs = views(roots@);
                assert(roots_after(*existing, up, h) == Ok::<Seq<Seq<char>>, Seq<char>>(rs));
                let i0 = choose|i: int| 0 <= i < roots@.len()
                    && path_starts_with(database_path@, #[trigger] views(roots@)[i])
                    && (forall|j: int| 0 <= j < i ==> !path_starts_with(database_path@, #[trigger] views(roots@)[j]))
                    && (e matches ProjectError::RootIncludesDatabase(x, d) && x@ == views(roots@)[i] && d@ == database_path@);
                assert(some_root_holds(rs, database_path@));
                let fi = first_database_root(rs, database_path@);
                if fi < i0 {
                    assert(!path_starts_with(database_path@, rs[fi]));
                } else if i0 < fi {
                    assert(!path_starts_with(database_path@, rs[i0]));
                }
                assert(fi == i0);
                assert(e@ == fe) by {
                    reveal(first_settings_error);
                }
            }
            return Err(e);
        },
    }
    let model_ref: Option<&str> = match &default_agent_model {
        Some(m) => Some(m.as_str()),
        None => None,
    };
    match validate_settings(
        workspace_mode,
        max_code_edit_agents,
        max_read_only_agents,
        create_pr,
        stale_claim_minutes,
        model_ref,
        available_models,
    ) {
        Ok(()) => {},
        Err(e) => {
            proof {
                let rs = views(roots@);
                assert(roots_after(*existing, up, h) == Ok::<Seq<Seq<char>>, Seq<char>>(rs));
                assert(!some_root_holds(rs, database_path@));
                assert(mode_after(*existing, up) == workspace_mode);
                assert(model_after(*existing, up) == opt_seq(default_agent_model));
                assert(e@ == fe) by {
                    reveal(first_settings_error);
                }
            }
            return Err(e);
        },
    }
    let serialized = serialize_agent_extra_writable_roots(&roots);
    Ok(ProjectSettingsRecord {
        workspace_mode: workspace_mode.as_storage().to_string(),
        max_code_edit_agents,
        max_read_only_agents,
        create_pr,
        auto_commit,
        commit_standard,
        revert_strategy: revert_strategy.as_storage().to_string(),
        stale_claim_minutes,
        worktree_cleanup_policy: worktree_cleanup_policy.as_storage().to_string(),
        default_agent_tool: default_agent_tool.as_storage().to_string(),
        default_agent_model,
        default_agent_reasoning_effort,
        agent_sandbox_mode: agent_sandbox_mode.as_storage().to_string(),
        agent_extra_writable_roots: serialized,
        agent_git_command_policy,
    })
}

} // verus!

verus! {

/// The settings a new project starts with: the current branch, one
/// code-editing and two read-only agents, no pull requests, automatic
/// commits, no commit standard, manual reverts, no stale-claim timeout,
/// manual worktree cleanup, Codex in a workspace-write sandbox, no extra
/// writable roots, the default git command policy, and the given model and
/// reasoning effort (stored names).
pub open spec fn new_project_settings_spec(
    model: Seq<char>,
    effort: Seq<char>,
    default_policy: Seq<char>,
    rec: ProjectSettingsRecord,
) -> bool {
    &&& rec.workspace_mode@ == "current_branch"@
    &&& rec.max_code_edit_agents == 1
    &&& rec.max_read_only_agents == 2
    &&& !rec.create_pr
    &&& rec.auto_commit
    &&& rec.commit_standard@ == Seq::<char>::empty()
    &&& rec.revert_strategy@ == "manual"@
    &&& rec.stale_claim_minutes == 0
    &&& rec.worktree_cleanup_policy@ == "manual"@
    &&& rec.default_agent_tool@ == "codex"@
    &&& opt_seq(rec.default_agent_model) == Some(model)
    &&& opt_seq(rec.default_agent_reasoning_effort) == Some(effort)
    &&& rec.agent_sandbox_mode@ == "workspace_write"@
    &&& rec.agent_extra_writable_roots@ == Seq::<char>::empty()
    &&& rec.agent_git_command_policy@ == default_policy
}

/// The settings of a new project. The default model is the requested one,
/// normalised, or else `newest_model`, and must be available; the reasoning
/// effort is the requested one or else `highest_effort`.
pub fn new_project_settings(
    default_agent_model: Option<String>,
    default_agent_reasoning_effort: Option<String>,
    newest_model: &str,
    highest_effort: &str,
    available_models: &Vec<String>,
    default_policy: &str,
) -> (r: Result<ProjectSettingsRecord, ProjectError>)
    ensures
        ({
            let model = match normalized_optional(opt_seq(default_agent_model)) {
                Some(m) => m,
                None => newest_model@,
            };
            let effort = match default_agent_reasoning_effort {
                Some(e) => e@,
                None => highest_effort@,
            };
            if trim(model).len() == 0 {
                r matches Err(ProjectError::ModelEmpty)
            } else if !views(available_models@).contains(model) {
                r matches Err(ProjectError::ModelUnknown(a)) && a@ == join(views(available_models@), ", "@)
            } else {
                r matches Ok(rec) && new_project_settings_spec(model, effort, default_policy@, rec)
            }
        }),
{
    let model = match normalize_optional(default_agent_model) {
        Some(m) => m,
        None => newest_model.to_string(),
    };
    match crate::projects::settings::validate_agent_model(Some(model.as_str()), available_models) {
        Ok(()) => {},
        Err(e) => return Err(e),
    }
    let effort = match default_agent_reasoning_effort {
        Some(e) => e,
        None => highest_effort.to_string(),
    };
    Ok(ProjectSettingsRecord {
        workspace_mode: WorkspaceMode::CurrentBranch.as_storage().to_string(),
        max_code_edit_agents: 1,
        max_read_only_agents: 2,
        create_pr: false,
        auto_commit: true,
        commit_standard: String::new(),
        revert_strategy: RevertStrategy::Manual.as_storage().to_string(),
        stale_claim_minutes: 0,
        worktree_cleanup_policy: WorktreeCleanupPolicy::Manual.as_storage().to_string(),
        default_agent_tool: AgentToolName::Codex.as_storage().to_string(),
        default_agent_model: Some(model),
        default_agent_reasoning_effort: Some(effort),
        agent_sandbox_mode: AgentSandboxMode::WorkspaceWrite.as_storage().to_string(),
        agent_extra_writable_roots: String::new(),
        agent_git_command_policy: default_policy.to_string(),
    })
}

/// Checks a new project's name and works out its display name (the
/// requested one or the name, trimmed).
pub fn check_new_project(name: &str, display_name: Option<String>) -> (r: Result<String, ProjectError>)
    ensures
        match crate::projects::names::project_name_error(name@) {
            Some(e) => r matches Err(x) && x == e,
            None => match crate::projects::names::display_name_of(opt_seq(display_name), name@) {
                Some(d) => r matches Ok(s) && s@ == d,
                None => r matches Err(ProjectError::DisplayNameEmpty),
            },
        },
{
    match crate::projects::names::validate_project_name(name) {
        Ok(()) => {},
        Err(e) => return Err(e),
    }
    crate::projects::names::resolve_display_name(display_name, name)
}

/// Checks that a project update changes something.
pub fn check_project_update(display_name_given: bool, path_given: bool) -> (r: Result<(), ProjectError>)
    ensures
        (display_name_given || path_given) <==> r is Ok,
        !(display_name_given || path_given) ==> (r matches Err(ProjectError::UpdateEmpty)),
{
    if !display_name_given && !path_given {
        Err(ProjectError::UpdateEmpty)
    } else {
        Ok(())
    }
}

/// Whether an update moved the project to another path (and its existence
/// must be checked again).
pub fn project_path_updated(old: Option<&str>, new: Option<&str>) -> (b: bool)
    ensures
        b == (match old { Some(o) => Some(o@), None => None::<Seq<char>> } != match new {
            Some(n) => Some(n@),
            None => None::<Seq<char>>,
        }),
{
    match (old, new) {
        (Some(o), Some(n)) => !crate::text::str_eq(o, n),
        (None, None) => false,
        _ => true,
    }
}

} // verus!
