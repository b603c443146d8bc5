use vstd::prelude::*;

use crate::projects::errors::ProjectError;
use crate::text::{is_blank, join, str_eq, trim, views};

verus! {

/// How agents of a project get their working copy.
#[derive(Clone, Copy, Debug, PartialEq, Eq, Structural)]
pub enum WorkspaceMode {
    CurrentBranch,
    GitWorktree,
    GitBranch,
}

/// How a failed run's changes are undone.
#[derive(Clone, Copy, Debug, PartialEq, Eq, Structural)]
pub enum RevertStrategy {
    Manual,
    GitReset,
}

/// When agent worktrees are removed.
#[derive(Clone, Copy, Debug, PartialEq, Eq, Structural)]
pub enum WorktreeCleanupPolicy {
    Manual,
    AfterSuccess,
}

/// The agent tool that runs work.
#[derive(Clone, Copy, Debug, PartialEq, Eq, Structural)]
pub enum AgentToolName {
    Codex,
}

/// What an agent may write to.
#[derive(Clone, Copy, Debug, PartialEq, Eq, Structural)]
pub enum AgentSandboxMode {
    WorkspaceWrite,
    DangerFullAccess,
}

/// The stored name of a workspace mode.
pub open spec fn workspace_mode_text(m: WorkspaceMode) -> Seq<char> {
    match m {
        WorkspaceMode::CurrentBranch => "current_branch"@,
        WorkspaceMode::GitWorktree => "git_worktree"@,
        WorkspaceMode::GitBranch => "git_branch"@,
    }
}

/// The stored name of a revert strategy.
pub open spec fn revert_strategy_text(m: RevertStrategy) -> Seq<char> {
    match m {
        RevertStrategy::Manual => "manual"@,
        RevertStrategy::GitReset => "git_reset"@,
    }
}

/// The stored name of a worktree cleanup policy.
pub open spec fn cleanup_policy_text(m: WorktreeCleanupPolicy) -> Seq<char> {
    match m {
        WorktreeCleanupPolicy::Manual => "manual"@,
        WorktreeCleanupPolicy::AfterSuccess => "after_success"@,
    }
}

/// The stored name of an agent tool.
pub open spec fn agent_tool_text(m: AgentToolName) -> Seq<char> {
    match m {
        AgentToolName::Codex => "codex"@,
    }
}

/// The stored name of a sandbox mode.
pub open spec fn sandbox_mode_text(m: AgentSandboxMode) -> Seq<char> {
    match m {
        AgentSandboxMode::WorkspaceWrite => "workspace_write"@,
        AgentSandboxMode::DangerFullAccess => "danger_full_access"@,
    }
}

impl WorkspaceMode {
    /// The stored name.
    pub fn as_storage(&self) -> (r: &'static str)
        ensures
            r@ == workspace_mode_text(*self),
    {
        match self {
            WorkspaceMode::CurrentBranch => "current_branch",
            WorkspaceMode::GitWorktree => "git_worktree",
            WorkspaceMode::GitBranch => "git_branch",
        }
    }

    /// The mode a stored name names.
    pub fn from_storage(value: &str) -> (r: Option<WorkspaceMode>)
        ensures
            match r {
                Some(m) => workspace_mode_text(m) == value@,
                None => forall|m: WorkspaceMode| workspace_mode_text(m) != value@,
            },
    {
        if str_eq(value, "current_branch") {
            Some(WorkspaceMode::CurrentBranch)
        } else if str_eq(value, "git_worktree") {
            Some(WorkspaceMode::GitWorktree)
        } else if str_eq(value, "git_branch") {
            Some(WorkspaceMode::GitBranch)
        } else {
            None
        }
    }
}

impl RevertStrategy {
    /// The stored name.
    pub fn as_storage(&self) -> (r: &'static str)
        ensures
            r@ == revert_strategy_text(*self),
    {
        match self {
            RevertStrategy::Manual => "manual",
            RevertStrategy::GitReset => "git_reset",
        }
    }

    /// The strategy a stored name names.
    pub fn from_storage(value: &str) -> (r: Option<RevertStrategy>)
        ensures
            match r {
                Some(m) => revert_strategy_text(m) == value@,
                None => forall|m: RevertStrategy| revert_strategy_text(m) != value@,
            },
    {
        if str_eq(value, "manual") {
            Some(RevertStrategy::Manual)
        } else if str_eq(value, "git_reset") {
            Some(RevertStrategy::GitReset)
        } else {
            None
        }
    }
}

impl WorktreeCleanupPolicy {
    /// The stored name.
    pub fn as_storage(&self) -> (r: &'static str)
        ensures
            r@ == cleanup_policy_text(*self),
    {
        match self {
            WorktreeCleanupPolicy::Manual => "manual",
            WorktreeCleanupPolicy::AfterSuccess => "after_success",
        }
    }

    /// The policy a stored name names.
    pub fn from_storage(value: &str) -> (r: Option<WorktreeCleanupPolicy>)
        ensures
            match r {
                Some(m) => cleanup_policy_text(m) == value@,
                None => forall|m: WorktreeCleanupPolicy| cleanup_policy_text(m) != value@,
            },
    {
        if str_eq(value, "manual") {
            Some(WorktreeCleanupPolicy::Manual)
        } else if str_eq(value, "after_success") {
            Some(WorktreeCleanupPolicy::AfterSuccess)
        } else {
            None
        }
    }
}

impl AgentToolName {
    /// The stored name.
    pub fn as_storage(&self) -> (r: &'static str)
        ensures
            r@ == agent_tool_text(*self),
    {
        match self {
            AgentToolName::Codex => "codex",
        }
    }

    /// The tool a stored name names.
    pub fn from_storage(value: &str) -> (r: Option<AgentToolName>)
        ensures
            match r {
                Some(m) => agent_tool_text(m) == value@,
                None => forall|m: AgentToolName| agent_tool_text(m) != value@,
            },
    {
        if str_eq(value, "codex") {
            Some(AgentToolName::Codex)
        } else {
            None
        }
    }
}

impl AgentSandboxMode {
    /// The stored name.
    pub fn as_storage(&self) -> (r: &'static str)
        ensures
            r@ == sandbox_mode_text(*self),
    {
        match self {
            AgentSandboxMode::WorkspaceWrite => "workspace_write",
            AgentSandboxMode::DangerFullAccess => "danger_full_access",
        }
    }

    /// The mode a stored name names.
    pub fn from_storage(value: &str) -> (r: Option<AgentSandboxMode>)
        ensures
            match r {
                Some(m) => sandbox_mode_text(m) == value@,
                None => forall|m: AgentSandboxMode| sandbox_mode_text(m) != value@,
            },
    {
        if str_eq(value, "workspace_write") {
            Some(AgentSandboxMode::WorkspaceWrite)
        } else if str_eq(value, "danger_full_access") {
            Some(AgentSandboxMode::DangerFullAccess)
        } else {
            None
        }
    }
}

/// Reading back a stored name gives the kind that was stored.
pub proof fn lemma_settings_storage_round_trip(
    w: WorkspaceMode,
    r: RevertStrategy,
    c: WorktreeCleanupPolicy,
    t: AgentToolName,
    s: AgentSandboxMode,
)
    ensures
        forall|x: WorkspaceMode| workspace_mode_text(x) == workspace_mode_text(w) ==> x == w,
        forall|x: RevertStrategy| revert_strategy_text(x) == revert_strategy_text(r) ==> x == r,
        forall|x: WorktreeCleanupPolicy| cleanup_policy_text(x) == cleanup_policy_text(c) ==> x == c,
        forall|x: AgentToolName| agent_tool_text(x) == agent_tool_text(t) ==> x == t,
        forall|x: AgentSandboxMode| sandbox_mode_text(x) == sandbox_mode_text(s) ==> x == s,
{
    reveal_strlit("current_branch");
    reveal_strlit("git_worktree");
    reveal_strlit("git_branch");
    reveal_strlit("manual");
    reveal_strlit("git_reset");
    reveal_strlit("after_success");
    reveal_strlit("workspace_write");
    reveal_strlit("danger_full_access");
    assert forall|x: WorkspaceMode| workspace_mode_text(x) == workspace_mode_text(w) implies x == w by {
        if x != w {
            assert(workspace_mode_text(x).len() != workspace_mode_text(w).len() || workspace_mode_text(x)[4] != workspace_mode_text(w)[4]);
        }
    }
    assert forall|x: RevertStrategy| revert_strategy_text(x) == revert_strategy_text(r) implies x == r by {
        if x != r {
            assert(revert_strategy_text(x).len() != revert_strategy_text(r).len());
        }
    }
    assert forall|x: WorktreeCleanupPolicy| cleanup_policy_text(x) == cleanup_policy_text(c) implies x == c by {
        if x != c {
            assert(cleanup_policy_text(x).len() != cleanup_policy_text(c).len());
        }
    }
    assert forall|x: AgentSandboxMode| sandbox_mode_text(x) == sandbox_mode_text(s) implies x == s by {
        if x != s {
            assert(sandbox_mode_text(x).len() != sandbox_mode_text(s).len());
        }
    }
}

/// Checks a default agent model against the models Codex offers
/// (`available_models`, by stored name).
pub fn validate_agent_model(default_agent_model: Option<&str>, available_models: &Vec<String>) -> (r: Result<(), ProjectError>)
    ensures
        match default_agent_model {
            None => r is Ok,
            Some(m) => if trim(m@).len() == 0 {
                r matches Err(ProjectError::ModelEmpty)
            } else if !views(available_models@).contains(m@) {
                r matches Err(ProjectError::ModelUnknown(a)) && a@ == join(views(available_models@), ", "@)
            } else {
                r is Ok
            },
        },
{
    let m = match default_agent_model {
        Some(m) => m,
        None => return Ok(()),
    };
    if is_blank(m) {
        return Err(ProjectError::ModelEmpty);
    }
    let ghost vs = views(available_models@);
    let mut i: usize = 0;
    while i < available_models.len()
        invariant
            i <= available_models.len(),
            vs == views(available_models@),
            default_agent_model == Some(m),
            trim(m@).len() > 0,
            forall|j: int| 0 <= j < i ==> vs[j] != m@,
        decreases available_models.len() - i,
    {
        if str_eq(available_models[i].as_str(), m) {
            assert(vs[i as int] == m@);
            return Ok(());
        }
        i = i + 1;
    }
    assert(!vs.contains(m@));
    let allowed = crate::text::join_strings(available_models, ", ");
    Err(ProjectError::ModelUnknown(allowed))
}

/// The first rule, in order, that a combination of run settings breaks:
/// at least one code-editing agent; more than one only with git worktrees;
/// no negative read-only agents; pull requests not on the current branch; no
/// negative stale-claim timeout.
pub open spec fn settings_rule_error(
    workspace_mode: WorkspaceMode,
    max_code_edit_agents: i64,
    max_read_only_agents: i64,
    create_pr: bool,
    stale_claim_minutes: i64,
) -> Option<ProjectError> {
    if max_code_edit_agents < 1 {
        Some(ProjectError::MaxCodeEditTooLow)
    } else if max_code_edit_agents > 1 && workspace_mode != WorkspaceMode::GitWorktree {
        Some(ProjectError::ParallelRequiresWorktree)
    } else if max_read_only_agents < 0 {
        Some(ProjectError::MaxReadOnlyNegative)
    } else if create_pr && workspace_mode == WorkspaceMode::CurrentBranch {
        Some(ProjectError::PullRequestsNeedBranch)
    } else if stale_claim_minutes < 0 {
        Some(ProjectError::StaleClaimNegative)
    } else {
        None
    }
}

/// Checks a project's run settings; the default model is checked last.
pub fn validate_settings(
    workspace_mode: WorkspaceMode,
    max_code_edit_agents: i64,
    max_read_only_agents: i64,
    create_pr: bool,
    stale_claim_minutes: i64,
    default_agent_model: Option<&str>,
    available_models: &Vec<String>,
) -> (r: Result<(), ProjectError>)
    ensures
        match settings_rule_error(workspace_mode, max_code_edit_agents, max_read_only_agents, create_pr, stale_claim_minutes) {
            Some(e) => r matches Err(x) && x == e,
            None => match default_agent_model {
                None => r is Ok,
                Some(m) => if trim(m@).len() == 0 {
                    r matches Err(ProjectError::ModelEmpty)
                } else if !views(available_models@).contains(m@) {
                    r matches Err(ProjectError::ModelUnknown(a)) && a@ == join(views(available_models@), ", "@)
                } else {
                    r is Ok
                },
            },
        },
{
    if max_code_edit_agents < 1 {
        return Err(ProjectError::MaxCodeEditTooLow);
    }
    if max_code_edit_agents > 1 && workspace_mode != WorkspaceMode::GitWorktree {
        return Err(ProjectError::ParallelRequiresWorktree);
    }
    if max_read_only_agents < 0 {
        return Err(ProjectError::MaxReadOnlyNegative);
    }
    if create_pr && workspace_mode == WorkspaceMode::CurrentBranch {
        return Err(ProjectError::PullRequestsNeedBranch);
    }
    if stale_claim_minutes < 0 {
        return Err(ProjectError::StaleClaimNegative);
    }
    validate_agent_model(default_agent_model, available_models)
}

/// How many code-editing agents a project runs at once: its maximum with git
/// worktrees, at most one otherwise.
pub open spec fn allowed_code_edit(workspace_mode: WorkspaceMode, max_code_edit_agents: i64) -> i64 {
    if workspace_mode == WorkspaceMode::GitWorktree {
        max_code_edit_agents
    } else if max_code_edit_agents < 1 {
        max_code_edit_agents
    } else {
        1
    }
}

/// How many code-editing agents a project runs at once.
pub fn allowed_code_edit_agents(workspace_mode: WorkspaceMode, max_code_edit_agents: i64) -> (r: i64)
    ensures
        r == allowed_code_edit(workspace_mode, max_code_edit_agents),
{
    if workspace_mode == WorkspaceMode::GitWorktree {
        max_code_edit_agents
    } else if max_code_edit_agents < 1 {
        max_code_edit_agents
    } else {
        1
    }
}

} // verus!
