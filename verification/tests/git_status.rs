use patchbay_server::projects::git_status::{
    git_branch_label, git_status_target, project_git_status, GitHead, RepositoryLookup,
};

#[test]
fn only_existing_given_paths_are_inspected() {
    assert_eq!(git_status_target(None, true, Some("/home/me")), None);
    assert_eq!(git_status_target(Some("   "), true, Some("/home/me")), None);
    assert_eq!(git_status_target(Some("/work/app"), false, Some("/home/me")), None);
    assert_eq!(
        git_status_target(Some(" ~/code/app "), true, Some("/home/me")),
        Some("/home/me/code/app".to_owned())
    );
    assert_eq!(git_status_target(Some("/work/app"), true, None), Some("/work/app".to_owned()));
}

#[test]
fn branch_labels_name_the_branch_or_the_detached_commit() {
    assert_eq!(git_branch_label(&GitHead::Branch(Some("main".to_owned()))), Some("main".to_owned()));
    assert_eq!(git_branch_label(&GitHead::Branch(None)), None);
    assert_eq!(
        git_branch_label(&GitHead::Detached(Some("0123456789abcdef".to_owned()))),
        Some("detached 0123456".to_owned())
    );
    assert_eq!(git_branch_label(&GitHead::Unreadable), None);
}

#[test]
fn an_existing_non_repository_reports_no_repository() {
    let status = project_git_status(RepositoryLookup::NotFound);
    assert!(!status.is_repository);
    assert!(status.branch.is_none());
    assert_eq!(status.added_lines, 0);
    assert_eq!(status.deleted_lines, 0);
    assert!(status.error.is_none());

    let failed = project_git_status(RepositoryLookup::Failed("permission denied".to_owned()));
    assert!(!failed.is_repository);
    assert_eq!(failed.error.as_deref(), Some("permission denied"));
}

#[test]
fn a_repository_reports_branch_and_diff_counts() {
    let status = project_git_status(RepositoryLookup::Found {
        head: GitHead::Branch(Some("main".to_owned())),
        diff: Ok((2, 1)),
    });
    assert!(status.is_repository);
    assert_eq!(status.branch.as_deref(), Some("main"));
    assert_eq!(status.added_lines, 2);
    assert_eq!(status.deleted_lines, 1);
    assert!(status.error.is_none());

    let broken = project_git_status(RepositoryLookup::Found {
        head: GitHead::Unreadable,
        diff: Err("failed to diff".to_owned()),
    });
    assert!(broken.is_repository);
    assert!(broken.branch.is_none());
    assert_eq!(broken.added_lines, 0);
    assert_eq!(broken.error.as_deref(), Some("failed to diff"));
}
