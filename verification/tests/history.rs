use vault_git::command::CommandOutput;
use vault_git::history::{
    commit_diff_args, commit_diff_step, file_history_args, get_file_diff, get_file_diff_at_commit,
    get_file_history, new_file_diff, note_path_in_repository, parse_file_history,
    show_at_commit_args, untracked_file_diff, DiffNext, DiffStage,
};
use vault_git::workspace::GitWorkspace;

fn output(success: bool, stdout: &str, stderr: &str) -> CommandOutput {
    CommandOutput { success, stdout: stdout.to_string(), stderr: stderr.to_string() }
}

const LOG: &str = "bbbbbbbbbbbbbbbbbbbbbbbbbbbbbbbbbbbbbbbb|bbbbbbb|Test User|2026-03-05T10:00:00+01:00|Update test\n\
aaaaaaaaaaaaaaaaaaaaaaaaaaaaaaaaaaaaaaaa|aaaaaaa|Test User|2026-03-04T10:00:00+01:00|Initial commit\n";

#[test]
fn test_get_file_history_with_commits() {
    let history = get_file_history(Ok(output(true, LOG, ""))).unwrap();
    assert_eq!(history.len(), 2);
    assert_eq!(history[0].message, "Update test");
    assert_eq!(history[1].message, "Initial commit");
    assert_eq!(history[0].author, "Test User");
    assert!(!history[0].hash.is_empty());
    assert!(!history[0].short_hash.is_empty());
}

#[test]
fn history_lines_keep_bars_in_messages_and_dates_as_timestamps() {
    let history = parse_file_history("h|s|A B|2026-03-05T10:00:00+01:00|fix: a | b\n\nbroken line\nh2|s2|C|not a date|m\n");
    assert_eq!(history.len(), 2);
    assert_eq!(history[0].message, "fix: a | b");
    assert_eq!(history[0].date, 1772701200);
    assert_eq!(history[1].date, 0);
}

#[test]
fn test_get_file_history_no_commits() {
    let history = get_file_history(Ok(output(
        false,
        "",
        "fatal: your current branch 'main' does not have any commits yet\n",
    )))
    .unwrap();
    assert!(history.is_empty());
}

#[test]
fn history_errors_are_reported() {
    assert_eq!(get_file_history(Err("x".to_string())).err().unwrap(), "Failed to run git log: x");
    assert_eq!(
        get_file_history(Ok(output(false, "", "fatal: bad revision\n"))).err().unwrap(),
        "git log failed: fatal: bad revision\n"
    );
}

#[test]
fn nested_vault_history_and_initial_diff_use_repository_relative_path() {
    let ws = GitWorkspace::from_prefix("/repo/docs", "/repo/docs", "docs/\n").unwrap();
    let path = note_path_in_repository(&ws, "/repo/docs/guide.md").unwrap();
    assert_eq!(path, "docs/guide.md");
    assert_eq!(
        file_history_args(&path),
        vec!["log", "--format=%H|%h|%an|%aI|%s", "-n", "20", "--", "docs/guide.md"]
    );
    let diff = get_file_diff_at_commit(&path, Ok(output(true, "# Guide\n", ""))).unwrap();
    assert!(diff.contains("+++ b/docs/guide.md"), "{diff}");
    assert!(diff.contains("+# Guide"), "{diff}");
    assert_eq!(note_path_in_repository(&ws, "/other/x.md").unwrap_err(), "File is outside the vault");
}

#[test]
fn test_get_file_diff() {
    let diff_out = "diff --git a/diff-test.md b/diff-test.md\n--- a/diff-test.md\n+++ b/diff-test.md\n@@ -1,3 +1,3 @@\n # Test\n \n-Original content.\n+Modified content.\n";
    match get_file_diff(DiffStage::Worktree, Ok(output(true, diff_out, ""))) {
        DiffNext::Finished(Ok(diff)) => {
            assert!(!diff.is_empty());
            assert!(diff.contains("-Original content."));
            assert!(diff.contains("+Modified content."));
        }
        _ => panic!("expected the working-tree diff"),
    }
}

#[test]
fn file_diff_falls_back_to_staged_then_untracked() {
    assert!(matches!(
        get_file_diff(DiffStage::Worktree, Ok(output(true, "", ""))),
        DiffNext::Run(DiffStage::Cached)
    ));
    assert!(matches!(
        get_file_diff(DiffStage::Cached, Ok(output(true, "", ""))),
        DiffNext::Run(DiffStage::Status)
    ));
    assert!(matches!(
        get_file_diff(DiffStage::Status, Ok(output(true, "?? new.md\n", ""))),
        DiffNext::ReadUntracked
    ));
    match get_file_diff(DiffStage::Status, Ok(output(true, " M new.md\n", ""))) {
        DiffNext::Finished(Ok(d)) => assert_eq!(d, ""),
        _ => panic!("expected an empty diff"),
    }
    match get_file_diff(DiffStage::Cached, Err("x".to_string())) {
        DiffNext::Finished(Err(e)) => assert_eq!(e, "Failed to run git diff --cached: x"),
        _ => panic!("expected an error"),
    }
    assert_eq!(
        untracked_file_diff("new.md", Ok("# New\nline\n".to_string())).unwrap(),
        "diff --git a/new.md b/new.md\nnew file\n--- /dev/null\n+++ b/new.md\n@@ -0,0 +1,2 @@\n+# New\n+line"
    );
    assert_eq!(untracked_file_diff("new.md", Err("gone".to_string())).unwrap_err(), "Failed to read file: gone");
}

#[test]
fn test_get_file_diff_at_commit() {
    let diff_out = "diff --git a/diff-at-commit.md b/diff-at-commit.md\n@@ -1,3 +1,3 @@\n # First\n \n-Original content.\n+Modified content.\n";
    let diff = commit_diff_step(Ok(output(true, diff_out, ""))).unwrap().unwrap();
    assert!(!diff.is_empty());
    assert!(diff.contains("-Original content."));
    assert!(diff.contains("+Modified content."));
    assert_eq!(
        commit_diff_args("abc", "diff-at-commit.md"),
        vec!["diff", "abc^", "abc", "--", "diff-at-commit.md"]
    );
}

#[test]
fn test_get_file_diff_at_initial_commit() {
    assert!(commit_diff_step(Ok(output(false, "", "fatal: bad revision 'abc^'"))).is_none());
    assert_eq!(show_at_commit_args("abc", "initial.md"), vec!["show", "abc:initial.md"]);
    let diff = get_file_diff_at_commit("initial.md", Ok(output(true, "# Initial\n\nHello world.", ""))).unwrap();
    assert!(!diff.is_empty());
    assert!(diff.contains("+# Initial"));
    assert!(diff.contains("+Hello world."));
    assert_eq!(get_file_diff_at_commit("initial.md", Ok(output(false, "", "fatal"))).unwrap(), "");
}

#[test]
fn new_file_diff_keeps_chinese_names_and_lines() {
    let diff = new_file_diff("中文笔记.md", "# 初始\n\n第二行\n");
    assert!(diff.contains("diff --git a/中文笔记.md b/中文笔记.md"));
    assert!(diff.contains("+第二行"));
    assert!(diff.contains("@@ -0,0 +1,3 @@"));
    assert!(!diff.contains("\\344"));
}

#[test]
fn unchanged_note_at_a_commit_has_an_empty_diff() {
    // The commit has a parent and leaves the note as it was: the diff against
    // the parent is empty, and that is the result.
    assert_eq!(commit_diff_step(Ok(output(true, "", ""))).unwrap().unwrap(), "");
    assert_eq!(commit_diff_step(Err("gone".to_string())).unwrap().unwrap_err(), "Failed to run git diff: gone");
}
