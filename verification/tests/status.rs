use vault_git::command::CommandOutput;
use vault_git::status::{
    count_lines, discard_file_changes, ensure_canonical_within_vault, ensure_relative_within_vault,
    file_status_sliceable, status_output_sliceable, diff_stats_table, line_count_paths, unstage_args,
    unstage_outcome,
    get_modified_files, get_modified_files_with_stats, load_diff_stats, load_file_status,
    modified_entries, parse_numstat_output, parse_status_output, repo_has_head, restore_tracked_file,
    status_args, DiscardAction, FileChangeStatus,
};
use vault_git::workspace::GitWorkspace;

fn output(success: bool, stdout: &str, stderr: &str) -> CommandOutput {
    CommandOutput { success, stdout: stdout.to_string(), stderr: stderr.to_string() }
}

fn root_workspace() -> GitWorkspace {
    GitWorkspace::from_prefix("/vault", "/vault", "\n").unwrap()
}

#[test]
fn status_fields_are_read_from_porcelain_z() {
    let entries = parse_status_output(" M note.md\0?? new note.md\0R  new.md\0old.md\0");
    assert_eq!(entries.len(), 3);
    assert_eq!(entries[0].status_code, " M");
    assert_eq!(entries[0].relative_path, "note.md");
    assert_eq!(entries[1].status_code, "??");
    assert_eq!(entries[1].relative_path, "new note.md");
    assert_eq!(entries[2].relative_path, "new.md");
}

#[test]
fn test_get_modified_files_omits_stats_by_default() {
    let status = " M note.md\0?? new.md\0?? image.png\0";
    let files = get_modified_files(&root_workspace(), Ok(output(true, status, ""))).unwrap();
    assert_eq!(files.len(), 2);
    assert_eq!(files[0].relative_path, "note.md");
    assert_eq!(files[0].status, "modified");
    assert_eq!(files[0].path, "/vault/note.md");
    assert_eq!(files[0].added_lines, None);
    assert_eq!(files[1].status, "untracked");
    assert_eq!(files[1].deleted_lines, None);
}

#[test]
fn test_get_modified_files_with_stats() {
    let ws = root_workspace();
    let entries = modified_entries(&ws, " M note.md\0?? new.md\0");
    let table = parse_numstat_output("3\t1\tnote.md\0");
    let lines = vec![None, Some(count_lines("# New\n"))];
    let files = get_modified_files_with_stats(&ws, &entries, &table, &lines);
    assert_eq!(files.len(), 2);
    assert_eq!(files[0].status, "modified");
    assert_eq!(files[0].added_lines, Some(3));
    assert_eq!(files[0].deleted_lines, Some(1));
    assert!(!files[0].binary);
    assert_eq!(files[1].status, "untracked");
    assert_eq!(files[1].added_lines, Some(1));
    assert_eq!(files[1].deleted_lines, None);
}

#[test]
fn binary_and_renamed_numstat_records() {
    let table = parse_numstat_output("-\t-\timage.md\0" );
    let s = table.get("image.md");
    assert!(s.binary);
    assert_eq!(s.added_lines, None);
    let renamed = parse_numstat_output("2\t0\t\0old name.md\0new name.md\0");
    assert_eq!(renamed.get("new name.md").added_lines, Some(2));
    assert_eq!(renamed.get("missing.md").added_lines, None);
}

#[test]
fn test_get_modified_files_untracked_in_subdirectory() {
    let files = get_modified_files(&root_workspace(), Ok(output(true, "?? note/brand-new.md\0", ""))).unwrap();
    assert_eq!(files.len(), 1);
    assert_eq!(files[0].relative_path, "note/brand-new.md");
    assert_eq!(files[0].status, "untracked");
    assert!(files[0].path.ends_with("/note/brand-new.md"), "Full path should end with relative path: {}", files[0].path);
}

#[test]
fn test_get_modified_files_preserves_renamed_markdown_path_with_spaces() {
    let files = get_modified_files(&root_workspace(), Ok(output(true, "R  test note.md\0alpha.md\0", ""))).unwrap();
    assert_eq!(files.len(), 1);
    assert_eq!(files[0].relative_path, "test note.md");
    assert_eq!(files[0].status, "renamed");
}

#[test]
fn nested_vault_status_excludes_parent_repository_changes() {
    let ws = GitWorkspace::from_prefix("/repo/docs", "/repo/docs", "docs/\n").unwrap();
    assert_eq!(status_args(&ws), vec!["status", "--porcelain=v1", "-z", "--untracked-files=all", "--", "docs"]);
    let status = " M docs/guide.md\0 M outside.md\0 M src/app.md\0?? docs/new note.md\0";
    let entries = modified_entries(&ws, status);
    let table = parse_numstat_output("2\t0\tdocs/guide.md\0");
    let lines = vec![None, Some(count_lines("# New\n"))];
    let files = get_modified_files_with_stats(&ws, &entries, &table, &lines);
    let names: Vec<&str> = files.iter().map(|f| f.relative_path.as_str()).collect();
    assert_eq!(names, vec!["guide.md", "new note.md"]);
    assert!(files.iter().all(|f| f.path.starts_with("/repo/docs/")));
    assert_eq!(files[0].added_lines, Some(2));
    assert_eq!(files[1].added_lines, Some(1));
}

#[test]
fn status_errors_are_reported() {
    assert_eq!(
        get_modified_files(&root_workspace(), Ok(output(false, "", " fatal: x \n"))).err().unwrap(),
        "git status failed: fatal: x"
    );
    assert_eq!(
        get_modified_files(&root_workspace(), Err("gone".to_string())).err().unwrap(),
        "Failed to run git status: gone"
    );
    assert_eq!(repo_has_head(Ok(output(false, "", ""))).unwrap(), false);
    assert!(load_diff_stats(Err("gone".to_string())).is_err());
}

#[test]
fn test_discard_rejects_path_outside_vault() {
    let result = ensure_relative_within_vault("../../../etc/passwd");
    assert!(result.is_err(), "Should reject path outside vault, got: {:?}", result);
    assert!(result.unwrap_err().contains("outside the vault"), "Error should mention 'outside the vault'");
    assert!(ensure_relative_within_vault("notes/a.md").is_ok());
    assert!(ensure_canonical_within_vault("/vault", "/vault/notes/a.md").is_ok());
    assert!(ensure_canonical_within_vault("/vault", "/vaultx/a.md").is_err());
}

#[test]
fn discarding_deletes_untracked_and_restores_the_rest() {
    assert!(matches!(discard_file_changes("??"), DiscardAction::RemoveFile { unstage: false }));
    assert!(matches!(discard_file_changes("A"), DiscardAction::RemoveFile { unstage: true }));
    assert!(matches!(discard_file_changes("AM"), DiscardAction::RemoveFile { unstage: true }));
    assert!(matches!(discard_file_changes("M"), DiscardAction::RestoreTracked));
    assert!(matches!(discard_file_changes("D"), DiscardAction::RestoreTracked));
    assert!(matches!(discard_file_changes("MA"), DiscardAction::RestoreTracked));
    assert_eq!(load_file_status(Ok(output(true, "?? new.md\n", ""))).unwrap(), "??");
    assert!(restore_tracked_file(Ok(output(true, "", ""))).is_ok());
    assert!(restore_tracked_file(Ok(output(false, "", "error: pathspec"))).is_err());
}

#[test]
fn change_kinds_and_labels() {
    assert!(FileChangeStatus::from_code("??") == FileChangeStatus::Untracked);
    assert!(FileChangeStatus::from_code("A ") == FileChangeStatus::Added);
    assert!(FileChangeStatus::from_code(" D") == FileChangeStatus::Deleted);
    assert!(FileChangeStatus::from_code("RM") == FileChangeStatus::Renamed);
    assert!(FileChangeStatus::from_code("MM") == FileChangeStatus::Modified);
    assert_eq!(FileChangeStatus::Renamed.label(), "renamed");
}

#[test]
fn status_fields_are_cut_at_byte_offsets() {
    let entries = parse_status_output("éxyz\0é.m\0ab\0");
    assert_eq!(entries.len(), 2);
    assert_eq!(entries[0].status_code, "é");
    assert_eq!(entries[0].relative_path, "yz");
    assert_eq!(entries[1].status_code, "é");
    assert_eq!(entries[1].relative_path, "m");
    assert!(status_output_sliceable(" M a.md\0?? 中文.md\0"));
    assert!(!status_output_sliceable("aé.md\0"));
    assert!(status_output_sliceable("R  new.md\0aé.md\0"));
}

#[test]
fn file_status_reads_the_first_long_line() {
    assert_eq!(load_file_status(Ok(output(true, "x\n M 中文.md\n", ""))).unwrap(), "M");
    assert_eq!(load_file_status(Ok(output(true, "\n", ""))).unwrap(), "");
    assert!(file_status_sliceable("?? a.md\n"));
    assert!(!file_status_sliceable("aé.md\n"));
    assert!(file_status_sliceable("abc\n"));
}

#[test]
fn staged_new_files_are_unstaged_then_removed() {
    let code = load_file_status(Ok(output(true, "A  docs/new.md\n", ""))).unwrap();
    assert_eq!(code, "A");
    assert!(matches!(discard_file_changes(&code), DiscardAction::RemoveFile { unstage: true }));
    let ws = GitWorkspace::from_prefix("/r/docs", "/r/docs", "docs\n").unwrap();
    assert_eq!(unstage_args(&ws, "new.md"), vec!["rm", "--cached", "--force", "--quiet", "--", "docs/new.md"]);
    assert!(unstage_outcome(Ok(output(true, "", ""))).is_ok());
    assert_eq!(unstage_outcome(Ok(output(false, "", " fatal: x\n"))).unwrap_err(), "git rm failed: fatal: x");
    assert_eq!(unstage_outcome(Err("gone".to_string())).unwrap_err(), "Failed to run git rm: gone");
}

#[test]
fn stats_need_a_head_and_untracked_files_are_counted() {
    let before_first_commit = diff_stats_table(false, Err(String::new())).ok().unwrap();
    assert_eq!(before_first_commit.get("a.md").added_lines, None);
    let table = diff_stats_table(true, Ok(output(true, "4\t2\ta.md\0", ""))).ok().unwrap();
    assert_eq!(table.get("a.md").deleted_lines, Some(2));
    assert!(diff_stats_table(true, Ok(output(false, "", "bad"))).is_err());
    let ws = root_workspace();
    let entries = modified_entries(&ws, " M a.md\0?? b.md\0");
    assert_eq!(line_count_paths(&ws, &entries), vec![None, Some("/vault/b.md".to_string())]);
}
