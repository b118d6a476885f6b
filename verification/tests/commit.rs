use vault_git::command::CommandOutput;
use vault_git::commit::{
    add_args, add_outcome, author_read_args, author_set_outcome, author_setting, AuthorKey, commit_args, git_commit, is_commit_signing_failure, run_commit,
    unsigned_retry_result, CommitFailure, CommitNext,
};
use vault_git::workspace::GitWorkspace;

fn output(success: bool, stdout: &str, stderr: &str) -> CommandOutput {
    CommandOutput { success, stdout: stdout.to_string(), stderr: stderr.to_string() }
}

fn nested_workspace() -> GitWorkspace {
    GitWorkspace::from_prefix("/repo/docs", "/repo/docs", "docs/\n").unwrap()
}

#[test]
fn test_commit_signing_failure_detection_is_specific() {
    assert!(is_commit_signing_failure(
        "error: cannot run gpg: No such file or directory\nfatal: failed to write commit object"
    ));
    assert!(!is_commit_signing_failure(
        "On branch main\nnothing to commit, working tree clean"
    ));
}

#[test]
fn signing_failure_detection_ignores_case() {
    assert!(is_commit_signing_failure("error: GPG failed to sign the data"));
    assert!(is_commit_signing_failure("fatal: Failed to write commit object (sign)"));
    assert!(!is_commit_signing_failure("fatal: failed to write commit object"));
}

#[test]
fn vault_commits_stage_and_commit_only_the_pathspec() {
    let ws = nested_workspace();
    assert_eq!(add_args(&ws), vec!["add", "-A", "--", "docs"]);
    assert_eq!(
        commit_args(&ws, "update nested vault", false),
        vec!["commit", "--only", "-m", "update nested vault", "--", "docs"]
    );
    assert_eq!(
        commit_args(&ws, "m", true),
        vec!["-c", "commit.gpgsign=false", "commit", "--only", "-m", "m", "--", "docs"]
    );
    let root = GitWorkspace::from_prefix("/v", "/v", "").unwrap();
    assert_eq!(add_args(&root), vec!["add", "-A", "--", "."]);
}

#[test]
fn add_outcome_reports_each_error() {
    assert!(add_outcome(Ok(output(true, "", ""))).is_ok());
    assert_eq!(add_outcome(Err("boom".to_string())).unwrap_err(), "Failed to run git add: boom");
    assert_eq!(
        add_outcome(Ok(output(false, "", "fatal: bad"))).unwrap_err(),
        "git add failed: fatal: bad"
    );
}

#[test]
fn nothing_to_commit_is_reported_from_stdout() {
    let first = run_commit(Ok(output(
        false,
        "On branch main\nnothing to commit, working tree clean\n",
        "",
    )));
    match git_commit(first) {
        CommitNext::Finished(Err(m)) => {
            assert!(m.contains("nothing to commit"));
            assert!(m.starts_with("git commit failed: "));
        }
        _ => panic!("expected a reported failure"),
    }
}

#[test]
fn commit_retries_unsigned_only_after_signing_failure() {
    let first = run_commit(Ok(output(
        false,
        "",
        "error: cannot run gpg: No such file or directory\nfatal: failed to write commit object\n",
    )));
    assert!(matches!(git_commit(first), CommitNext::RetryUnsigned));

    let ok = run_commit(Ok(output(true, "[main 1234567] msg\n", "")));
    match git_commit(ok) {
        CommitNext::Finished(Ok(s)) => assert_eq!(s, "[main 1234567] msg\n"),
        _ => panic!("expected success"),
    }

    let retry = unsigned_retry_result(Err(CommitFailure {
        stdout: String::new(),
        stderr: "fatal: disk full\n".to_string(),
    }));
    assert_eq!(
        retry.unwrap_err(),
        "git commit signing failed; retried without signing but git commit still failed: fatal: disk full"
    );
    assert_eq!(unsigned_retry_result(Ok("done".to_string())).unwrap(), "done");
}

#[test]
fn commit_spawn_error_is_reported() {
    match run_commit(Err("no git".to_string())) {
        Err(f) => {
            assert_eq!(f.stderr, "Failed to run git commit: no git");
            assert_eq!(f.detail(), "Failed to run git commit: no git");
        }
        Ok(_) => panic!("expected failure"),
    }
}

#[test]
fn fallback_author_identity_is_set_only_when_missing() {
    assert_eq!(author_read_args(AuthorKey::Name), vec!["config", "user.name"]);
    assert_eq!(author_setting(AuthorKey::Name, Ok(output(true, "Global User\n", ""))).unwrap(), None);
    assert_eq!(
        author_setting(AuthorKey::Name, Ok(output(false, "", ""))).unwrap(),
        Some(vec!["config".to_string(), "--local".to_string(), "user.name".to_string(), "Tolaria".to_string()])
    );
    assert_eq!(
        author_setting(AuthorKey::Email, Ok(output(true, " \n", ""))).unwrap(),
        Some(vec!["config".to_string(), "--local".to_string(), "user.email".to_string(), "vault@tolaria.default".to_string()])
    );
    assert_eq!(
        author_setting(AuthorKey::Email, Err("gone".to_string())).unwrap_err(),
        "Failed to read git config user.email: gone"
    );
    assert!(author_set_outcome(Ok(output(true, "", ""))).is_ok());
    assert_eq!(author_set_outcome(Ok(output(false, "", ""))).unwrap_err(), "git config failed");
}
