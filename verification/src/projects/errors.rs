use vstd::prelude::*;

use crate::text::int_text;

verus! {

/// Why a project operation was refused.
#[derive(Clone, Debug)]
pub enum ProjectError {
    NameEmpty,
    NameWhitespace,
    NameSeparator,
    DisplayNameEmpty,
    PathRequired,
    PathNotDirectory(String),
    UpdateEmpty,
    SettingsUpdateEmpty,
    MaxCodeEditTooLow,
    ParallelRequiresWorktree,
    MaxReadOnlyNegative,
    PullRequestsNeedBranch,
    StaleClaimNegative,
    ModelEmpty,
    /// The model is not available; the text lists the available ones.
    ModelUnknown(String),
    RootNotAbsolute(String),
    /// A writable root (first) contains the database file (second).
    RootIncludesDatabase(String, String),
    MemoryAppendEmpty,
    /// A stored setting (first: its name) holds a value (second) that is not one of its kinds.
    InvalidStoredValue(String, String),
    /// A project with this name does not exist.
    NotFound(String),
    /// A project with this id does not exist.
    NotFoundById(i64),
}

/// The mathematical value of a project error: its kind and the texts it carries.
pub enum ProjectErrorView {
    NameEmpty,
    NameWhitespace,
    NameSeparator,
    DisplayNameEmpty,
    PathRequired,
    PathNotDirectory(Seq<char>),
    UpdateEmpty,
    SettingsUpdateEmpty,
    MaxCodeEditTooLow,
    ParallelRequiresWorktree,
    MaxReadOnlyNegative,
    PullRequestsNeedBranch,
    StaleClaimNegative,
    ModelEmpty,
    ModelUnknown(Seq<char>),
    RootNotAbsolute(Seq<char>),
    RootIncludesDatabase(Seq<char>, Seq<char>),
    MemoryAppendEmpty,
    InvalidStoredValue(Seq<char>, Seq<char>),
    NotFound(Seq<char>),
    NotFoundById(i64),
}

impl View for ProjectError {
    type V = ProjectErrorView;

    open spec fn view(&self) -> ProjectErrorView {
        match self {
            ProjectError::NameEmpty => ProjectErrorView::NameEmpty,
            ProjectError::NameWhitespace => ProjectErrorView::NameWhitespace,
            ProjectError::NameSeparator => ProjectErrorView::NameSeparator,
            ProjectError::DisplayNameEmpty => ProjectErrorView::DisplayNameEmpty,
            ProjectError::PathRequired => ProjectErrorView::PathRequired,
            ProjectError::PathNotDirectory(p) => ProjectErrorView::PathNotDirectory(p@),
            ProjectError::UpdateEmpty => ProjectErrorView::UpdateEmpty,
            ProjectError::SettingsUpdateEmpty => ProjectErrorView::SettingsUpdateEmpty,
            ProjectError::MaxCodeEditTooLow => ProjectErrorView::MaxCodeEditTooLow,
            ProjectError::ParallelRequiresWorktree => ProjectErrorView::ParallelRequiresWorktree,
            ProjectError::MaxReadOnlyNegative => ProjectErrorView::MaxReadOnlyNegative,
            ProjectError::PullRequestsNeedBranch => ProjectErrorView::PullRequestsNeedBranch,
            ProjectError::StaleClaimNegative => ProjectErrorView::StaleClaimNegative,
            ProjectError::ModelEmpty => ProjectErrorView::ModelEmpty,
            ProjectError::ModelUnknown(a) => ProjectErrorView::ModelUnknown(a@),
            ProjectError::RootNotAbsolute(r) => ProjectErrorView::RootNotAbsolute(r@),
            ProjectError::RootIncludesDatabase(r, d) => ProjectErrorView::RootIncludesDatabase(r@, d@),
            ProjectError::MemoryAppendEmpty => ProjectErrorView::MemoryAppendEmpty,
            ProjectError::InvalidStoredValue(f, v) => ProjectErrorView::InvalidStoredValue(f@, v@),
            ProjectError::NotFound(n) => ProjectErrorView::NotFound(n@),
            ProjectError::NotFoundById(id) => ProjectErrorView::NotFoundById(*id),
        }
    }
}

/// The message of a project error.
pub open spec fn project_error_text(e: ProjectError) -> Seq<char> {
    match e {
        ProjectError::NameEmpty => "project name cannot be empty"@,
        ProjectError::NameWhitespace => "project name cannot have leading or trailing whitespace"@,
        ProjectError::NameSeparator => "project name cannot contain path separators"@,
        ProjectError::DisplayNameEmpty => "project display name cannot be empty"@,
        ProjectError::PathRequired => "project path is required"@,
        ProjectError::PathNotDirectory(p) => "project path '"@ + p@ + "' is not a directory"@,
        ProjectError::UpdateEmpty => "project update requires at least one field"@,
        ProjectError::SettingsUpdateEmpty => "project settings update requires at least one field"@,
        ProjectError::MaxCodeEditTooLow => "max code-editing agents must be at least 1"@,
        ProjectError::ParallelRequiresWorktree => "only git_worktree strategy can run multiple agents in parallel"@,
        ProjectError::MaxReadOnlyNegative => "max read-only agents cannot be negative"@,
        ProjectError::PullRequestsNeedBranch => "pull requests can only be created for git_worktree or git_branch strategies"@,
        ProjectError::StaleClaimNegative => "stale claim minutes cannot be negative"@,
        ProjectError::ModelEmpty => "default agent model cannot be empty"@,
        ProjectError::ModelUnknown(allowed) => "default agent model must be one of: "@ + allowed@,
        ProjectError::RootNotAbsolute(r) => "agent extra writable root '"@ + r@ + "' must resolve to an absolute path"@,
        ProjectError::RootIncludesDatabase(r, d) => "agent extra writable root '"@ + r@ + "' includes Patchbay database "@ + d@
            + "; choose a narrower directory"@,
        ProjectError::MemoryAppendEmpty => "project memory append body cannot be empty"@,
        ProjectError::InvalidStoredValue(f, v) => "invalid "@ + f@ + " '"@ + v@ + "'"@,
        ProjectError::NotFound(n) => "project '"@ + n@ + "' does not exist"@,
        ProjectError::NotFoundById(id) => "project "@ + int_text(id as int) + " does not exist"@,
    }
}

impl ProjectError {
    /// The message shown for this error.
    pub fn message(&self) -> (r: String)
        ensures
            r@ == project_error_text(*self),
    {
        let mut s = String::new();
        match self {
            ProjectError::NameEmpty => s.append("project name cannot be empty"),
            ProjectError::NameWhitespace => s.append("project name cannot have leading or trailing whitespace"),
            ProjectError::NameSeparator => s.append("project name cannot contain path separators"),
            ProjectError::DisplayNameEmpty => s.append("project display name cannot be empty"),
            ProjectError::PathRequired => s.append("project path is required"),
            ProjectError::PathNotDirectory(p) => {
                s.append("project path '");
                s.append(p.as_str());
                s.append("' is not a directory");
            },
            ProjectError::UpdateEmpty => s.append("project update requires at least one field"),
            ProjectError::SettingsUpdateEmpty => s.append("project settings update requires at least one field"),
            ProjectError::MaxCodeEditTooLow => s.append("max code-editing agents must be at least 1"),
            ProjectError::ParallelRequiresWorktree => s.append("only git_worktree strategy can run multiple agents in parallel"),
            ProjectError::MaxReadOnlyNegative => s.append("max read-only agents cannot be negative"),
            ProjectError::PullRequestsNeedBranch => s.append("pull requests can only be created for git_worktree or git_branch strategies"),
            ProjectError::StaleClaimNegative => s.append("stale claim minutes cannot be negative"),
            ProjectError::ModelEmpty => s.append("default agent model cannot be empty"),
            ProjectError::ModelUnknown(allowed) => {
                s.append("default agent model must be one of: ");
                s.append(allowed.as_str());
            },
            ProjectError::RootNotAbsolute(r) => {
                s.append("agent extra writable root '");
                s.append(r.as_str());
                s.append("' must resolve to an absolute path");
            },
            ProjectError::RootIncludesDatabase(r, d) => {
                s.append("agent extra writable root '");
                s.append(r.as_str());
                s.append("' includes Patchbay database ");
                s.append(d.as_str());
                s.append("; choose a narrower directory");
            },
            ProjectError::MemoryAppendEmpty => s.append("project memory append body cannot be empty"),
            ProjectError::InvalidStoredValue(f, v) => {
                s.append("invalid ");
                s.append(f.as_str());
                s.append(" '");
                s.append(v.as_str());
                s.append("'");
            },
            ProjectError::NotFound(n) => {
                s.append("project '");
                s.append(n.as_str());
                s.append("' does not exist");
            },
            ProjectError::NotFoundById(id) => {
                s.append("project ");
                crate::text::push_int(&mut s, *id);
                s.append(" does not exist");
            },
        }
        s
    }
}

} // verus!
