use vault_git::command::CommandOutput;
use vault_git::conflict::get_conflict_files;
use vault_git::file_url::{encode_segment_chars, remote_file_url};
use vault_git::pulse::{get_vault_pulse, parse_pulse_output};
use vault_git::remote::pull_output_result;
use vault_git::status::{get_modified_files, get_modified_files_with_stats, line_count_paths, modified_entries, parse_numstat_output};
use vault_git::workspace::GitWorkspace;

fn output(success: bool, stdout: &str, stderr: &str) -> CommandOutput {
    CommandOutput { success, stdout: stdout.to_string(), stderr: stderr.to_string() }
}

fn nested() -> GitWorkspace {
    GitWorkspace::from_prefix("/r/notes", "/r/notes", "notes\n").unwrap()
}

#[test]
fn round_trip_of_a_vault_path() {
    let ws = nested();
    let repo = ws.repo_relative_path("a/./b\\c.md");
    assert_eq!(repo, "notes/a/b\\c.md");
    assert_eq!(ws.vault_relative_path(&repo), Some("a/b/c.md".to_string()));
}

#[test]
fn accepted_repository_paths_lie_under_the_pathspec() {
    let ws = nested();
    let rel = ws.vault_relative_path("notes/deep/x.md").unwrap();
    assert_eq!(format!("notes/{rel}"), "notes/deep/x.md");
}

#[test]
fn listed_changes_are_markdown_notes_of_the_vault() {
    let status = " M notes/a.md\0 M notes/b.txt\0 M other/c.md\0?? notes/d.md\0";
    let files = get_modified_files(&nested(), Ok(output(true, status, ""))).unwrap();
    let names: Vec<&str> = files.iter().map(|f| f.relative_path.as_str()).collect();
    assert_eq!(names, vec!["a.md", "d.md"]);
    assert!(files.iter().all(|f| f.relative_path.ends_with(".md")));
}

#[test]
fn feed_lists_only_vault_notes_and_never_empty_commits() {
    let stdout = "h1|s1|Outside|2026-01-01T00:00:00Z\nA\tother/x.md\n\nh2|s2|Mixed|2026-01-01T00:00:00Z\nA\tnotes/x.md\nM\tnotes/y.json\n";
    let pulse = get_vault_pulse(&nested(), Ok(output(true, stdout, "")), None).unwrap();
    assert_eq!(pulse.len(), 1);
    assert!(pulse.iter().all(|c| !c.files.is_empty() && c.files.iter().all(|f| f.path.ends_with(".md"))));
}

#[test]
fn feed_counts_equal_listed_notes() {
    let stdout = "h|s|m|2026-01-01T00:00:00Z\nA\ta.md\nD\tb.md\nM\tc.md\nT\td.md\n";
    for c in parse_pulse_output(stdout, None) {
        assert_eq!(c.added + c.modified + c.deleted, c.files.len());
    }
}

#[test]
fn conflict_listing_is_sorted_without_repeats() {
    let stdout = "m h 1\tnotes/b.md\nm h 2\tnotes/a.md\nm h 3\tnotes/b.md\nm h 1\tnotes/A.md\n";
    let files = get_conflict_files(&nested(), Ok(output(true, stdout, ""))).unwrap();
    assert_eq!(files, vec!["A.md", "a.md", "b.md"]);
}

#[test]
fn pull_reports_only_vault_files() {
    let stdout = " notes/a.md | 1 +\n other/b.md | 1 +\n";
    let result = pull_output_result(&nested(), true, stdout, "", Vec::new());
    assert_eq!(result.updated_files, vec!["a.md"]);
}

#[test]
fn credential_in_remote_never_reaches_note_url() {
    let url = remote_file_url("https://ghp_SECRET@github.com/o/r.git", "main", "a.md");
    assert_eq!(url, "https://github.com/o/r/blob/main/a.md");
    assert!(!url.contains("SECRET"));
}

#[test]
fn encoded_segments_are_url_safe() {
    let encoded: String = encode_segment_chars(&"a b/c?é#%".chars().collect::<Vec<char>>()).into_iter().collect();
    assert_eq!(encoded, "a%20b%2Fc%3F%C3%A9%23%25");
    assert!(encoded.chars().all(|c| c.is_ascii_alphanumeric() || "-._~%".contains(c)));
}

#[test]
fn listings_with_and_without_statistics_agree() {
    let ws = nested();
    let status = " M notes/a.md\0?? notes/b.md\0 M other/c.md\0";
    let plain = get_modified_files(&ws, Ok(output(true, status, ""))).unwrap();
    let entries = modified_entries(&ws, status);
    let table = parse_numstat_output("1\t1\tnotes/a.md\0");
    let lines: Vec<Option<usize>> = line_count_paths(&ws, &entries).iter().map(|p| p.as_ref().map(|_| 3)).collect();
    let counted = get_modified_files_with_stats(&ws, &entries, &table, &lines);
    assert_eq!(plain.len(), counted.len());
    for (a, b) in plain.iter().zip(counted.iter()) {
        assert_eq!(a.path, b.path);
        assert_eq!(a.relative_path, b.relative_path);
        assert_eq!(a.status, b.status);
        assert!(a.added_lines.is_none() && a.deleted_lines.is_none() && !a.binary);
    }
    assert_eq!(counted[0].added_lines, Some(1));
    assert_eq!(counted[1].added_lines, Some(3));
}

#[test]
fn pull_conflicts_are_listed_exactly_when_reported() {
    let conflicts = get_conflict_files(&nested(), Ok(output(true, "m h 1\tnotes/x.md\nm h 1\tother/y.md\n", ""))).unwrap();
    assert_eq!(conflicts, vec!["x.md"]);
    let r = pull_output_result(&nested(), false, "", "CONFLICT", conflicts);
    assert_eq!(r.status, "conflict");
    assert!(r.updated_files.is_empty());
    let e = pull_output_result(&nested(), false, "", "fatal: x", Vec::new());
    assert_eq!(e.status, "error");
    assert!(e.conflict_files.is_empty());
}
