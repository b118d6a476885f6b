use vault_git::command::CommandOutput;
use vault_git::conflict::{
    check_no_remaining_conflicts, conflict_files_args, get_conflict_files, get_conflict_mode,
    git_commit_conflict_resolution, git_resolve_conflict, git_state_path, is_merge_in_progress,
    is_rebase_in_progress, parse_conflict_strategy, resolution_command, state_path_args,
    ConflictStrategy, GitStatePath,
};
use vault_git::workspace::GitWorkspace;

fn output(success: bool, stdout: &str, stderr: &str) -> CommandOutput {
    CommandOutput { success, stdout: stdout.to_string(), stderr: stderr.to_string() }
}

fn root_workspace() -> GitWorkspace {
    GitWorkspace::from_prefix("/vault", "/vault", "\n").unwrap()
}

fn nested_workspace() -> GitWorkspace {
    GitWorkspace::from_prefix("/repo/docs", "/repo/docs", "docs/\n").unwrap()
}

const UNMERGED: &str = "100644 1111111111111111111111111111111111111111 1\tconflict.md\n\
100644 2222222222222222222222222222222222222222 2\tconflict.md\n\
100644 3333333333333333333333333333333333333333 3\tconflict.md\n";

#[test]
fn test_get_conflict_files_empty_when_clean() {
    let files = get_conflict_files(&root_workspace(), Ok(output(true, "", ""))).unwrap();
    assert!(files.is_empty());
}

#[test]
fn conflict_files_are_listed_once_each() {
    let files = get_conflict_files(&root_workspace(), Ok(output(true, UNMERGED, ""))).unwrap();
    assert_eq!(files, vec!["conflict.md"]);
}

#[test]
fn conflict_files_are_sorted_and_unique() {
    let stdout = "100644 a 1\tzeta.md\n100644 b 2\talpha.md\n100644 c 3\tzeta.md\n100644 d 1\tmid/b.md\n";
    let files = get_conflict_files(&root_workspace(), Ok(output(true, stdout, ""))).unwrap();
    assert_eq!(files, vec!["alpha.md", "mid/b.md", "zeta.md"]);
}

#[test]
fn nested_vault_conflicts_are_scoped_and_vault_relative() {
    let stdout = "100644 a 1\tdocs/conflict.md\n100644 b 2\tdocs/conflict.md\n100644 c 1\toutside.md\n100644 d 2\toutside.md\n";
    let ws = nested_workspace();
    assert_eq!(conflict_files_args(&ws), vec!["ls-files", "--unmerged", "--", "docs"]);
    let files = get_conflict_files(&ws, Ok(output(true, stdout, ""))).unwrap();
    assert_eq!(files, vec!["conflict.md"]);
}

#[test]
fn conflict_listing_spawn_error() {
    let e = get_conflict_files(&root_workspace(), Err("no git".to_string())).unwrap_err();
    assert_eq!(e, "Failed to check conflicts: no git");
}

#[test]
fn test_resolve_conflict_invalid_strategy() {
    let result = git_resolve_conflict(&root_workspace(), "conflict.md", "invalid");
    assert!(result.is_err());
    let e = result.err().unwrap();
    assert!(e.contains("Invalid strategy"));
    assert_eq!(e, "Invalid strategy 'invalid': must be 'ours' or 'theirs'");
}

#[test]
fn resolving_checks_out_the_side_then_stages() {
    let ours = git_resolve_conflict(&nested_workspace(), "conflict.md", "ours").ok().unwrap();
    assert_eq!(ours.checkout, vec!["checkout", "--ours", "--", "docs/conflict.md"]);
    assert_eq!(ours.add, vec!["add", "--", "docs/conflict.md"]);
    let theirs = git_resolve_conflict(&root_workspace(), "conflict.md", "theirs").ok().unwrap();
    assert_eq!(theirs.checkout, vec!["checkout", "--theirs", "--", "conflict.md"]);
    assert!(parse_conflict_strategy("ours").ok().unwrap() == ConflictStrategy::Ours);
    assert!(parse_conflict_strategy("theirs").ok().unwrap() == ConflictStrategy::Theirs);
    assert_eq!(ConflictStrategy::Theirs.checkout_flag(), "--theirs");
}

#[test]
fn test_conflict_mode_none_for_clean_repo() {
    let rebase = is_rebase_in_progress(Ok(false), Ok(false));
    let merge = is_merge_in_progress(Ok(false));
    assert_eq!(get_conflict_mode(rebase, merge), "none");
    assert!(!rebase);
    assert!(!merge);
}

#[test]
fn test_conflict_mode_merge_during_merge_conflict() {
    let rebase = is_rebase_in_progress(Ok(false), Ok(false));
    let merge = is_merge_in_progress(Ok(true));
    assert_eq!(get_conflict_mode(rebase, merge), "merge");
    assert!(merge);
    assert!(!rebase);
}

#[test]
fn test_conflict_mode_rebase_during_rebase_conflict() {
    let rebase = is_rebase_in_progress(Ok(true), Ok(false));
    assert_eq!(get_conflict_mode(rebase, false), "rebase");
    assert!(is_rebase_in_progress(Err("x".to_string()), Ok(true)));
    assert!(!is_rebase_in_progress(Err("x".to_string()), Err("y".to_string())));
    assert!(!is_merge_in_progress(Err("x".to_string())));
    assert_eq!(get_conflict_mode(true, true), "rebase");
}

#[test]
fn state_paths_resolve_against_the_work_tree() {
    assert_eq!(state_path_args(GitStatePath::MergeHead), vec!["rev-parse", "--git-path", "MERGE_HEAD"]);
    assert_eq!(GitStatePath::RebaseApply.as_str(), "rebase-apply");
    assert_eq!(GitStatePath::RebaseMerge.as_str(), "rebase-merge");
    assert_eq!(
        git_state_path("/repo", Ok(output(true, ".git/MERGE_HEAD\n", ""))).unwrap(),
        "/repo/.git/MERGE_HEAD"
    );
    assert_eq!(
        git_state_path("/repo", Ok(output(true, "/elsewhere/.git/rebase-merge\n", ""))).unwrap(),
        "/elsewhere/.git/rebase-merge"
    );
    assert_eq!(
        git_state_path("/repo", Ok(output(false, "", "fatal"))).unwrap_err(),
        "Git state path resolution failed"
    );
    assert_eq!(
        git_state_path("/repo", Err("gone".to_string())).unwrap_err(),
        "Failed to resolve Git state path: gone"
    );
}

#[test]
fn test_commit_conflict_resolution_fails_with_unresolved() {
    let remaining = vec!["conflict.md".to_string()];
    let result = check_no_remaining_conflicts(&remaining);
    assert!(result.is_err());
    let e = result.unwrap_err();
    assert!(e.contains("still have unresolved conflicts"));
    assert_eq!(e, "Cannot commit: 1 file(s) still have unresolved conflicts");
    assert!(check_no_remaining_conflicts(&Vec::new()).is_ok());
}

#[test]
fn test_commit_conflict_resolution_merge_mode() {
    let command = resolution_command("merge");
    assert_eq!(command.args, vec!["commit", "-m", "Resolve merge conflicts"]);
    assert!(!command.sets_editor);
    let result = git_commit_conflict_resolution("merge", Ok(output(true, "[main abc] Resolve merge conflicts\n", "")));
    assert_eq!(result.unwrap(), "[main abc] Resolve merge conflicts\n");
}

#[test]
fn test_resolve_and_continue_rebase() {
    let command = resolution_command("rebase");
    assert_eq!(command.args, vec!["rebase", "--continue"]);
    assert!(command.sets_editor);
    let failed = git_commit_conflict_resolution("rebase", Ok(output(false, "out\n", "  error: could not apply  \n")));
    assert_eq!(failed.unwrap_err(), "git rebase --continue failed: error: could not apply");
    let spawn = git_commit_conflict_resolution("none", Err("no git".to_string()));
    assert_eq!(spawn.unwrap_err(), "Failed to run git commit: no git");
    let quiet = git_commit_conflict_resolution("merge", Ok(output(false, "nothing added\n", " \n")));
    assert_eq!(quiet.unwrap_err(), "git commit failed: nothing added");
}
