use vault_git::command::CommandOutput;
use vault_git::pulse::{
    get_github_base_url, get_last_commit_info, get_vault_pulse, github_commit_url,
    last_commit_args, parse_github_repo_path, parse_pulse_output, pulse_args, title_from_path,
};
use vault_git::workspace::{require_repository, GitWorkspace};

fn output(success: bool, stdout: &str, stderr: &str) -> CommandOutput {
    CommandOutput { success, stdout: stdout.to_string(), stderr: stderr.to_string() }
}

fn root_workspace() -> GitWorkspace {
    GitWorkspace::from_prefix("/vault", "/vault", "\n").unwrap()
}

const NOTE_COMMIT: &str = "1111111111111111111111111111111111111111|1111111|Add note|2026-03-04T10:00:00+01:00\nA\tnote.md\n";

fn log_after(change: &str) -> String {
    format!("{change}\n{NOTE_COMMIT}")
}

#[test]
fn test_get_vault_pulse_only_md_files() {
    let stdout = log_after("2222222222222222222222222222222222222222|2222222|Add config|2026-03-05T10:00:00+01:00\nA\tconfig.json\n");
    let pulse = get_vault_pulse(&root_workspace(), Ok(output(true, &stdout, "")), None).unwrap();
    assert_eq!(pulse.len(), 1);
    assert_eq!(pulse[0].files.len(), 1);
    assert_eq!(pulse[0].files[0].path, "note.md");
}

#[test]
fn test_get_vault_pulse_modified_and_deleted() {
    let stdout = log_after("3333333333333333333333333333333333333333|3333333|Update note|2026-03-05T10:00:00+01:00\nM\tnote.md\n");
    let pulse = get_vault_pulse(&root_workspace(), Ok(output(true, &stdout, "")), None).unwrap();
    assert_eq!(pulse[0].message, "Update note");
    assert_eq!(pulse[0].files[0].status, "modified");
    assert_eq!(pulse[0].modified, 1);
}

#[test]
fn test_get_vault_pulse_github_url() {
    let base = get_github_base_url(Ok(output(true, "https://github.com/owner/repo.git\n", "")));
    let pulse = get_vault_pulse(&root_workspace(), Ok(output(true, NOTE_COMMIT, "")), base).unwrap();
    let url = pulse[0].github_url.clone().unwrap();
    assert!(url.starts_with("https://github.com/owner/repo/commit/"));
}

#[test]
fn test_get_vault_pulse_no_github_url_without_remote() {
    let base = get_github_base_url(Ok(output(false, "", "error: No such remote 'origin'\n")));
    let pulse = get_vault_pulse(&root_workspace(), Ok(output(true, NOTE_COMMIT, "")), base).unwrap();
    assert!(pulse[0].github_url.is_none());
}

#[test]
fn test_get_vault_pulse_with_commits() {
    let stdout = log_after("4444444444444444444444444444444444444444|4444444|Add project|2026-03-05T10:00:00+01:00\nA\tproject.md\n");
    let pulse = get_vault_pulse(&root_workspace(), Ok(output(true, &stdout, "")), None).unwrap();
    assert_eq!(pulse.len(), 2);
    assert_eq!(pulse[0].message, "Add project");
    assert_eq!(pulse[1].message, "Add note");
    assert_eq!(pulse[0].files.len(), 1);
    assert_eq!(pulse[0].files[0].path, "project.md");
    assert_eq!(pulse[0].files[0].status, "added");
    assert_eq!(pulse[0].added, 1);
    assert_eq!(pulse[0].modified, 0);
    assert!(!pulse[0].short_hash.is_empty());
    assert_eq!(pulse[0].date, 1772701200);
}

#[test]
fn test_get_vault_pulse_no_git() {
    let result = require_repository(Ok(None));
    assert!(result.is_err());
    assert!(result.err().unwrap().contains("Not a git repository"));
}

#[test]
fn test_get_vault_pulse_empty_repo() {
    let pulse = get_vault_pulse(
        &root_workspace(),
        Ok(output(false, "", "fatal: your current branch 'main' does not have any commits yet\n")),
        None,
    )
    .unwrap();
    assert!(pulse.is_empty());
}

#[test]
fn pulse_errors_are_reported() {
    let e = get_vault_pulse(&root_workspace(), Ok(output(false, "", "fatal: bad\n")), None).err().unwrap();
    assert_eq!(e, "git log failed: fatal: bad\n");
    let e = get_vault_pulse(&root_workspace(), Err("gone".to_string()), None).err().unwrap();
    assert_eq!(e, "Failed to run git log: gone");
}

#[test]
fn pulse_asks_for_a_page_of_the_vault_log() {
    let ws = GitWorkspace::from_prefix("/repo/docs", "/repo/docs", "docs/\n").unwrap();
    assert_eq!(
        pulse_args(&ws, 30, 0),
        vec!["log", "--name-status", "--pretty=format:%H|%h|%s|%aI", "--diff-filter=ADM", "-n", "30", "--skip", "0", "--", "docs"]
    );
    assert_eq!(last_commit_args(&ws), vec!["log", "-1", "--format=%H|%h", "--", "docs"]);
}

#[test]
fn test_title_from_path() {
    assert_eq!(title_from_path("note/my-project.md"), "my project");
    assert_eq!(title_from_path("simple.md"), "simple");
    assert_eq!(title_from_path("deep/nested/file.md"), "file");
}

#[test]
fn test_parse_pulse_output_basic() {
    let stdout = "abc123|abc123d|Add notes|2026-03-05T10:00:00+01:00\nA\tnote.md\nM\tproject.md\n";
    let commits = parse_pulse_output(stdout, None);
    assert_eq!(commits.len(), 1);
    assert_eq!(commits[0].message, "Add notes");
    assert_eq!(commits[0].files.len(), 2);
    assert_eq!(commits[0].files[0].status, "added");
    assert_eq!(commits[0].files[1].status, "modified");
    assert_eq!(commits[0].added, 1);
    assert_eq!(commits[0].modified, 1);
    assert!(commits[0].github_url.is_none());
}

#[test]
fn test_parse_pulse_output_with_github() {
    let stdout = "abc123|abc123d|Msg|2026-03-05T10:00:00+01:00\nA\tnote.md\n";
    let commits = parse_pulse_output(stdout, Some("https://github.com/o/r"));
    assert_eq!(commits[0].github_url.as_deref(), Some("https://github.com/o/r/commit/abc123"));
}

#[test]
fn test_parse_pulse_output_multiple_commits() {
    let stdout = "aaa|aaa1234|First|2026-03-05T10:00:00+01:00\nA\ta.md\n\nbbb|bbb1234|Second|2026-03-04T10:00:00+01:00\nM\tb.md\nD\tc.md\n";
    let commits = parse_pulse_output(stdout, None);
    assert_eq!(commits.len(), 2);
    assert_eq!(commits[0].message, "First");
    assert_eq!(commits[1].message, "Second");
    assert_eq!(commits[1].files.len(), 2);
    assert_eq!(commits[1].deleted, 1);
}

#[test]
fn feed_counts_add_up_to_the_listed_notes() {
    let stdout = "aaa|aaa1234|Mixed|2026-03-05T10:00:00+01:00\nA\ta.md\nM\tb.md\nD\tc.md\nR100\td.md\n";
    let commits = parse_pulse_output(stdout, None);
    let c = &commits[0];
    assert_eq!(c.added + c.modified + c.deleted, c.files.len());
    assert_eq!(c.modified, 2);
}

#[test]
fn test_get_last_commit_info_with_github_remote() {
    let base = get_github_base_url(Ok(output(true, "https://github.com/lucaong/laputa-vault.git\n", "")));
    let info = get_last_commit_info(
        Ok(output(true, "0123456789abcdef0123456789abcdef01234567|0123456\n", "")),
        base,
    )
    .unwrap()
    .unwrap();
    let url = info.commit_url.unwrap();
    assert!(url.starts_with("https://github.com/lucaong/laputa-vault/commit/"));
    assert_eq!(info.short_hash, "0123456");
}

#[test]
fn test_get_last_commit_info_no_commits() {
    let info = get_last_commit_info(
        Ok(output(false, "", "fatal: your current branch 'main' does not have any commits yet\n")),
        None,
    )
    .unwrap();
    assert!(info.is_none());
}

#[test]
fn nested_vault_pulse_excludes_parent_changes_and_maps_paths() {
    let ws = GitWorkspace::from_prefix("/repo/docs", "/repo/docs", "docs/\n").unwrap();
    let stdout = "bbb|bbb1234|Outside only|2026-03-05T10:00:00+01:00\nA\toutside.md\n\naaa|aaa1234|Add guide|2026-03-04T10:00:00+01:00\nA\tdocs/guide.md\n";
    let pulse = get_vault_pulse(&ws, Ok(output(true, stdout, "")), None).unwrap();
    assert_eq!(pulse.len(), 1);
    assert_eq!(pulse[0].message, "Add guide");
    assert_eq!(pulse[0].files[0].path, "guide.md");
    assert_eq!(pulse[0].files[0].title, "guide");
}

#[test]
fn github_remotes_in_every_form() {
    assert_eq!(parse_github_repo_path("git@github.com:owner/repo.git").as_deref(), Some("owner/repo"));
    assert_eq!(parse_github_repo_path("ssh://git@github.com/owner/repo/").as_deref(), Some("owner/repo"));
    assert_eq!(parse_github_repo_path("http://github.com/owner/repo").as_deref(), Some("owner/repo"));
    assert_eq!(parse_github_repo_path("https://gitlab.com/owner/repo.git"), None);
    assert_eq!(github_commit_url("https://github.com/o/r", "abc"), "https://github.com/o/r/commit/abc");
}
