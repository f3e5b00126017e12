use aether_dev::git::{gitdir_target, parse_porcelain, read_branch};

#[test]
fn a_clean_worktree_reports_nothing_changed() {
    assert_eq!(parse_porcelain(""), (0, 0));
    assert_eq!(parse_porcelain("\n\n  \n"), (0, 0));
}

#[test]
fn tracked_changes_and_untracked_files_are_counted_apart() {
    let output = " M src/main.rs\nA  src/new.rs\n?? notes.txt\n?? scratch/\n";
    assert_eq!(parse_porcelain(output), (2, 2));
}

#[test]
fn a_renamed_file_counts_as_a_tracked_change() {
    assert_eq!(parse_porcelain("R  old.rs -> new.rs\n"), (1, 0));
}

#[test]
fn crlf_output_is_counted_the_same_as_lf_output() {
    assert_eq!(parse_porcelain(" M a.rs\r\n?? b.rs\r\n"), (1, 1));
}

#[test]
fn a_branch_is_read_from_the_head_file_without_running_git() {
    assert_eq!(
        read_branch("ref: refs/heads/feature/thing\n"),
        Some("feature/thing".to_string())
    );
}

#[test]
fn a_detached_head_reports_the_short_commit_rather_than_a_branch() {
    assert_eq!(
        read_branch("9f2a1c4d5e6f7a8b9c0d1e2f3a4b5c6d7e8f9a0b\n"),
        Some("detached:9f2a1c4".to_string())
    );
}

#[test]
fn a_worktree_whose_git_is_a_file_is_followed_to_the_real_head() {
    assert_eq!(
        gitdir_target("gitdir: /srv/realgit\n"),
        Some("/srv/realgit".to_string())
    );
    assert_eq!(read_branch("ref: refs/heads/main\n"), Some("main".to_string()));
}
