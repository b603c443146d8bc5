use vstd::prelude::*;

use crate::projects::names::{expand_home, expand_home_path_with};
use crate::text::{copy_string, trim, trim_str};

verus! {

/// The repository directory to inspect for a project's git status: the
/// trimmed path with `~` expanded (by `home`), where the path is given, not
/// blank, and exists.
pub open spec fn git_status_target_of(path: Option<Seq<char>>, path_exists: bool, home: Option<Seq<char>>) -> Option<Seq<char>> {
    match path {
        Some(p) => if trim(p).len() == 0 || !path_exists {
            None
        } else {
            Some(expand_home(trim(p), home))
        },
        None => None,
    }
}

/// The directory whose git status a project shows, if any.
pub fn git_status_target(path: Option<&str>, path_exists: bool, home: Option<&str>) -> (r: Option<String>)
    ensures
        match r {
            Some(s) => git_status_target_of(
                match path {
                    Some(p) => Some(p@),
                    None => None,
                },
                path_exists,
                match home {
                    Some(h) => Some(h@),
                    None => None,
                },
            ) == Some(s@),
            None => git_status_target_of(
                match path {
                    Some(p) => Some(p@),
                    None => None,
                },
                path_exists,
                match home {
                    Some(h) => Some(h@),
                    None => None,
                },
            ) is None,
        },
{
    match path {
        None => None,
        Some(p) => {
            let t = trim_str(p);
            if t.as_str().unicode_len() == 0 || !path_exists {
                None
            } else {
                Some(expand_home_path_with(t.as_str(), home))
            }
        },
    }
}

/// What the head of a repository is.
pub enum GitHead {
    /// The head cannot be read (an unborn branch, say).
    Unreadable,
    /// A branch, with its short name where the name is text.
    Branch(Option<String>),
    /// A detached head, with the hexadecimal id of the commit where it has one.
    Detached(Option<String>),
}

/// The branch a project's repository shows: the branch's short name, or
/// `detached` and the first seven digits of the commit id.
pub open spec fn branch_label_of(head: GitHead) -> Option<Seq<char>> {
    match head {
        GitHead::Unreadable => None,
        GitHead::Branch(name) => match name {
            Some(n) => Some(n@),
            None => None,
        },
        GitHead::Detached(id) => match id {
            Some(h) => Some("detached "@ + h@.take(if h@.len() < 7 { h@.len() as int } else { 7 })),
            None => None,
        },
    }
}

/// The branch label of a repository head.
pub fn git_branch_label(head: &GitHead) -> (r: Option<String>)
    ensures
        match r {
            Some(s) => branch_label_of(*head) == Some(s@),
            None => branch_label_of(*head) is None,
        },
{
    match head {
        GitHead::Unreadable => None,
        GitHead::Branch(name) => match name {
            Some(n) => Some(copy_string(n)),
            None => None,
        },
        GitHead::Detached(id) => match id {
            Some(h) => {
                let cs = crate::text::chars_of(h.as_str());
                let n: usize = if cs.len() < 7 { cs.len() } else { 7 };
                let short = crate::text::string_of_range(&cs, 0, n);
                let mut s = String::from_str("detached ");
                s.append(short.as_str());
                assert(cs@.subrange(0, n as int) =~= h@.take(n as int));
                Some(s)
            },
            None => None,
        },
    }
}

/// What looking for the repository of a project found.
pub enum RepositoryLookup {
    /// A repository, with its head and the line counts of its uncommitted
    /// changes (added, deleted) or the error that counting them gave.
    Found { head: GitHead, diff: Result<(u64, u64), String> },
    /// No repository holds the directory.
    NotFound,
    /// The lookup failed with this message.
    Failed(String),
}

/// The git status of a project's directory.
pub struct ProjectGitStatus {
    pub is_repository: bool,
    pub branch: Option<String>,
    pub added_lines: u64,
    pub deleted_lines: u64,
    pub error: Option<String>,
}

pub open spec fn opt_text(o: Option<String>) -> Option<Seq<char>> {
    match o {
        Some(s) => Some(s@),
        None => None,
    }
}

/// The git status that a repository lookup gives: no repository (with the
/// lookup's error where it failed), or the repository's branch and the line
/// counts of its changes (zero, with the error, where they could not be counted).
pub open spec fn git_status_holds(s: ProjectGitStatus, lookup: RepositoryLookup) -> bool {
    match lookup {
        RepositoryLookup::NotFound => !s.is_repository && s.branch is None && s.added_lines == 0
            && s.deleted_lines == 0 && s.error is None,
        RepositoryLookup::Failed(m) => !s.is_repository && s.branch is None && s.added_lines == 0
            && s.deleted_lines == 0 && opt_text(s.error) == Some(m@),
        RepositoryLookup::Found { head, diff } => {
            &&& s.is_repository
            &&& opt_text(s.branch) == branch_label_of(head)
            &&& match diff {
                Ok((a, d)) => s.added_lines == a && s.deleted_lines == d && s.error is None,
                Err(m) => s.added_lines == 0 && s.deleted_lines == 0 && opt_text(s.error) == Some(m@),
            }
        },
    }
}

/// The git status of a project's directory from what the repository lookup found.
pub fn project_git_status(lookup: RepositoryLookup) -> (r: ProjectGitStatus)
    ensures
        git_status_holds(r, lookup),
{
    match lookup {
        RepositoryLookup::NotFound => ProjectGitStatus {
            is_repository: false,
            branch: None,
            added_lines: 0,
            deleted_lines: 0,
            error: None,
        },
        RepositoryLookup::Failed(m) => ProjectGitStatus {
            is_repository: false,
            branch: None,
            added_lines: 0,
            deleted_lines: 0,
            error: Some(m),
        },
        RepositoryLookup::Found { head, diff } => {
            let branch = git_branch_label(&head);
            match diff {
                Ok((a, d)) => ProjectGitStatus {
                    is_repository: true,
                    branch,
                    added_lines: a,
                    deleted_lines: d,
                    error: None,
                },
                Err(m) => ProjectGitStatus {
                    is_repository: true,
                    branch,
                    added_lines: 0,
                    deleted_lines: 0,
                    error: Some(m),
                },
            }
        },
    }
}

} // verus!
