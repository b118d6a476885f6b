use vault_git::command::CommandOutput;
use vault_git::file_url::primary_remote;
use vault_git::remote::{
    classify_push_error, git_pull, git_push, has_configured_remote, has_remote,
    no_remote_pull_result, no_remote_push_result, parse_updated_files, pull_args, pull_output_result,
    push_args, sync_target, missing_upstream_message, upstream_args, upstream_target,
};
use vault_git::workspace::GitWorkspace;

fn output(success: bool, stdout: &str, stderr: &str) -> CommandOutput {
    CommandOutput { success, stdout: stdout.to_string(), stderr: stderr.to_string() }
}

fn root_workspace() -> GitWorkspace {
    GitWorkspace::from_prefix("/vault", "/vault", "\n").unwrap()
}

fn nested_workspace() -> GitWorkspace {
    GitWorkspace::from_prefix("/repo/docs", "/repo/docs", "docs/\n").unwrap()
}

#[test]
fn test_has_remote_returns_false_for_local_repo() {
    // `git config --get-regexp` finds no remote URL and exits with status 1.
    let configured = has_configured_remote(&output(false, "", ""));
    assert!(!has_remote(true, Ok(configured)).unwrap());
}

#[test]
fn test_has_remote_returns_true_when_remote_exists() {
    let configured = has_configured_remote(&output(true, "remote.origin.url https://example.com/repo.git\n", ""));
    assert!(has_remote(true, Ok(configured)).unwrap());
}

#[test]
fn test_has_remote_ignores_name_only_remote_without_url() {
    // `git remote` lists `origin` (only `remote.origin.prune` is set), yet
    // `git config --get-regexp` finds no remote URL.
    let listed = primary_remote(Ok(output(true, "origin\n", ""))).unwrap();
    assert_eq!(listed.as_deref(), Some("origin"));
    let configured = has_configured_remote(&output(false, "", ""));
    assert!(!has_remote(true, Ok(configured)).unwrap());
}

#[test]
fn has_remote_outside_a_work_tree_is_false() {
    assert!(!has_remote(false, Err("x".to_string())).unwrap());
    assert_eq!(has_remote(true, Err("x".to_string())).unwrap_err(), "x");
    assert!(!has_configured_remote(&output(true, "  \n\n", "")));
}

#[test]
fn test_git_pull_no_remote_returns_no_remote() {
    let result = no_remote_pull_result();
    assert_eq!(result.status, "no_remote");
    assert!(result.updated_files.is_empty());
    assert!(result.conflict_files.is_empty());
}

#[test]
fn test_git_pull_up_to_date() {
    let result = git_pull(&root_workspace(), Ok(output(true, "Already up to date.\n", "")), Vec::new()).unwrap();
    assert_eq!(result.status, "up_to_date");
    assert_eq!(result.message, "Already up to date");
}

#[test]
fn test_git_pull_updated_files() {
    let stdout = "Updating 1111111..2222222\nFast-forward\n note.md | 2 +-\n 1 file changed, 1 insertion(+), 1 deletion(-)\n";
    let result = git_pull(&root_workspace(), Ok(output(true, stdout, "")), Vec::new()).unwrap();
    assert_eq!(result.status, "updated");
    assert!(result.conflict_files.is_empty());
    assert_eq!(result.updated_files, vec!["note.md"]);
    assert_eq!(result.message, "1 vault file(s) updated");
}

#[test]
fn nested_pull_reports_only_vault_files() {
    let stdout = "Fast-forward\n docs/guide.md | 2 +-\n src/app.rs | 4 ++--\n 2 files changed\n";
    let result = pull_output_result(&nested_workspace(), true, stdout, "", Vec::new());
    assert_eq!(result.status, "updated");
    assert_eq!(result.updated_files, vec!["guide.md"]);
    assert_eq!(result.message, "Parent repository: 1 vault file(s) updated");
    let same = pull_output_result(&nested_workspace(), true, "Already up-to-date.\n", "", Vec::new());
    assert_eq!(same.message, "Parent repository: Already up to date");
}

#[test]
fn failed_pull_reports_conflicts_or_the_error() {
    let conflicts = vec!["a.md".to_string(), "b.md".to_string()];
    let result = pull_output_result(&root_workspace(), false, "CONFLICT", "", conflicts);
    assert_eq!(result.status, "conflict");
    assert_eq!(result.message, "Merge conflict in 2 file(s)");
    assert_eq!(result.conflict_files, vec!["a.md", "b.md"]);
    let failed = pull_output_result(&root_workspace(), false, " out \n", "  ", Vec::new());
    assert_eq!(failed.status, "error");
    assert_eq!(failed.message, "out");
    assert_eq!(
        git_pull(&root_workspace(), Err("gone".to_string()), Vec::new()).err().unwrap(),
        "Failed to run git pull: gone"
    );
}

#[test]
fn test_parse_updated_files_diffstat() {
    let stdout = " Fast-forward\n note.md | 2 +-\n project/plan.md | 4 ++--\n 2 files changed\n";
    let files = parse_updated_files(stdout);
    assert_eq!(files, vec!["note.md", "project/plan.md"]);
}

#[test]
fn test_parse_updated_files_empty() {
    let stdout = "Already up to date.\n";
    let files = parse_updated_files(stdout);
    assert!(files.is_empty());
}

#[test]
fn upstreams_name_remote_and_branch() {
    let target = sync_target("origin/feature/x\n").unwrap();
    assert_eq!(target.remote, "origin");
    assert_eq!(target.branch, "feature/x");
    assert_eq!(target.display, "origin/feature/x");
    assert_eq!(pull_args(&target), vec!["pull", "--no-rebase", "origin", "feature/x"]);
    assert_eq!(push_args(&target), vec!["push", "origin", "HEAD:refs/heads/feature/x"]);
    assert!(sync_target("origin").is_none());
    assert!(sync_target("/main").is_none());
    assert!(sync_target("origin/").is_none());
}

#[test]
fn test_classify_push_error_non_fast_forward() {
    let stderr = r#"To github.com:user/repo.git
 ! [rejected]        main -> main (non-fast-forward)
error: failed to push some refs to 'github.com:user/repo.git'
hint: Updates were rejected because the remote contains work that you do not
hint: have locally."#;
    let result = classify_push_error(stderr);
    assert_eq!(result.status, "rejected");
    assert!(result.message.contains("Pull first"));
}

#[test]
fn test_classify_push_error_fetch_first() {
    let stderr = "error: failed to push some refs\nhint: Updates were rejected because the tip of your current branch is behind\nhint: its remote counterpart. Integrate the remote changes (e.g.\nhint: 'git pull ...') before pushing again.\nhint: See the 'Note about fast-forwards' in 'git push --help' for details.\n ! [rejected]        main -> main (fetch first)\n";
    let result = classify_push_error(stderr);
    assert_eq!(result.status, "rejected");
}

#[test]
fn test_classify_push_error_auth_failure() {
    let stderr = "remote: Permission denied to user/repo.git\nfatal: unable to access 'https://github.com/user/repo.git/': The requested URL returned error: 403";
    let result = classify_push_error(stderr);
    assert_eq!(result.status, "auth_error");
    assert!(result.message.contains("authentication"));
}

#[test]
fn test_classify_push_error_network() {
    let stderr = "fatal: unable to access 'https://github.com/user/repo.git/': Could not resolve host: github.com";
    let result = classify_push_error(stderr);
    assert_eq!(result.status, "network_error");
    assert!(result.message.contains("network"));
}

#[test]
fn test_classify_push_error_no_remote() {
    let stderr = "fatal: No configured push destination.";
    let result = classify_push_error(stderr);
    assert_eq!(result.status, "no_remote");
    assert!(result.message.contains("No remote"));
}

#[test]
fn test_classify_push_error_unknown() {
    let stderr = "error: something unexpected happened\nhint: Try again later";
    let result = classify_push_error(stderr);
    assert_eq!(result.status, "error");
    assert!(result.message.contains("Try again later"));
    assert_eq!(result.message, "Push failed: Try again later");
}

#[test]
fn test_classify_push_error_unknown_no_hint() {
    let stderr = "error: something totally weird";
    let result = classify_push_error(stderr);
    assert_eq!(result.status, "error");
    assert!(result.message.contains("something totally weird"));
}

#[test]
fn push_classification_lowercases_unicode_text() {
    // `AUTHENTICATION FAILED` only matches once lowercased.
    let result = classify_push_error("fatal: AUTHENTICATION FAILED for 'x' — Ünïcode");
    assert_eq!(result.status, "auth_error");
}

#[test]
fn test_git_push_no_remote_returns_no_remote() {
    let result = no_remote_push_result();
    assert_eq!(result.status, "no_remote");
}

#[test]
fn test_git_push_success_returns_ok() {
    let result = git_push(&root_workspace(), Ok(output(true, "", "To origin\n"))).unwrap();
    assert_eq!(result.status, "ok");
    assert_eq!(result.message, "Pushed to remote");
    let nested = git_push(&nested_workspace(), Ok(output(true, "", ""))).unwrap();
    assert_eq!(nested.message, "Parent repository: Pushed to remote");
}

#[test]
fn test_git_push_rejected_returns_rejected() {
    let stderr = "To /tmp/bare\n ! [rejected]        main -> main (fetch first)\nerror: failed to push some refs to '/tmp/bare'\n";
    let result = git_push(&root_workspace(), Ok(output(false, "", stderr))).unwrap();
    assert_eq!(result.status, "rejected");
    assert!(result.message.contains("Pull first"));
    assert_eq!(git_push(&root_workspace(), Err("gone".to_string())).err().unwrap(), "Failed to run git push: gone");
}

#[test]
fn upstream_is_read_from_git() {
    assert_eq!(upstream_args(), vec!["rev-parse", "--abbrev-ref", "--symbolic-full-name", "@{u}"]);
    let target = upstream_target(Ok(output(true, "origin/main\n", ""))).unwrap().unwrap();
    assert_eq!(target.remote, "origin");
    assert_eq!(target.branch, "main");
    assert!(upstream_target(Ok(output(false, "", "fatal: no upstream configured"))).unwrap().is_none());
    assert_eq!(upstream_target(Err("gone".to_string())).err().unwrap(), "Failed to read upstream: gone");
    assert_eq!(missing_upstream_message("topic"), "No upstream branch is configured for topic");
}

#[test]
fn push_failures_are_classified_as_printed() {
    let stderr = "\n  error: something odd\nhint: Try again later\n";
    let result = git_push(&root_workspace(), Ok(output(false, "", stderr))).unwrap();
    assert_eq!(result.status, "error");
    assert_eq!(result.message, "Push failed: Try again later");
    let plain = git_push(&root_workspace(), Ok(output(false, "", "  error: weird  \n"))).unwrap();
    assert_eq!(plain.message, "Push failed: error: weird");
}
