use vault_git::command::CommandOutput;
use vault_git::workspace::{git_workspace_info, require_workspace, GitWorkspace};

fn output(success: bool, stdout: &str, stderr: &str) -> CommandOutput {
    CommandOutput { success, stdout: stdout.to_string(), stderr: stderr.to_string() }
}

#[test]
fn resolves_repository_root_vault() {
    let workspace = GitWorkspace::resolve(
        "/tmp/vault",
        true,
        Ok(output(true, "\n", "")),
        Ok("/private/tmp/vault".to_string()),
    )
    .unwrap()
    .unwrap();
    assert_eq!(workspace.git_root(), "/private/tmp/vault");
    assert_eq!(workspace.vault_pathspec(), ".");
    assert_eq!(workspace.relation(), "vault");
}

#[test]
fn resolves_nested_vault_and_maps_paths_at_one_boundary() {
    let workspace = GitWorkspace::resolve(
        "/tmp/repo/docs/user guides",
        true,
        Ok(output(true, "docs/user guides/\n", "")),
        Ok("/tmp/repo/docs/user guides".to_string()),
    )
    .unwrap()
    .unwrap();
    assert_eq!(workspace.git_root(), "/tmp/repo");
    assert_eq!(workspace.vault_pathspec(), "docs/user guides");
    assert_eq!(workspace.repo_relative_path("intro.md"), "docs/user guides/intro.md");
    assert_eq!(
        workspace.vault_relative_path("docs/user guides/intro.md"),
        Some("intro.md".to_string())
    );
    assert_eq!(workspace.vault_relative_path("src/outside.md"), None);
    assert_eq!(workspace.relation(), "parent");
    assert!(workspace.uses_parent_repository());
}

#[test]
fn reports_gitless_vault_without_failure() {
    let resolved = GitWorkspace::resolve("/tmp/plain", true, Ok(output(false, "", "fatal: not a git repository")), Ok("/tmp/plain".to_string()));
    let info = git_workspace_info("/tmp/plain", resolved);
    assert_eq!(info.git_root_relation, "none");
    assert_eq!(info.git_root, None);
    assert_eq!(info.resolution_failure, None);
    assert_eq!(info.vault_root, "/tmp/plain");
}

#[test]
fn resolution_failures_are_categorised() {
    let info = git_workspace_info("/nope", GitWorkspace::resolve("/nope", false, Err("x".to_string()), Err("y".to_string())));
    assert_eq!(info.resolution_failure.as_deref(), Some("invalid_vault"));
    let e = GitWorkspace::resolve("/v", true, Err("spawn".to_string()), Ok("/v".to_string())).err().unwrap();
    assert_eq!(e, "provider_unavailable");
    let e = GitWorkspace::resolve("/v", true, Ok(output(true, "\n", "")), Err("gone".to_string())).err().unwrap();
    assert_eq!(e, "vault_resolution_failed");
    let e = GitWorkspace::resolve("/v", true, Ok(output(true, "a/../b/\n", "")), Ok("/v".to_string())).err().unwrap();
    assert_eq!(e, "invalid_git_prefix");
    let e = GitWorkspace::resolve("/v", true, Ok(output(true, "a/b/\n", "")), Ok("/v".to_string())).err().unwrap();
    assert_eq!(e, "invalid_git_prefix");
}

#[test]
fn workspace_info_reports_the_git_context() {
    let resolved = GitWorkspace::resolve("/tmp/repo/docs", true, Ok(output(true, "docs\n", "")), Ok("/tmp/repo/docs".to_string()));
    let info = git_workspace_info("/tmp/repo/docs", resolved);
    assert_eq!(info.git_root.as_deref(), Some("/tmp/repo"));
    assert_eq!(info.vault_pathspec.as_deref(), Some("docs"));
    assert_eq!(info.git_root_relation, "parent");
    assert_eq!(info.resolution_failure, None);
}

#[test]
fn vault_must_be_in_a_work_tree() {
    assert_eq!(require_workspace(Ok(None)).err().unwrap(), "Vault is not inside a Git work tree");
    assert_eq!(require_workspace(Err("invalid_vault".to_string())).err().unwrap(), "invalid_vault");
}

#[test]
fn paths_map_into_the_repository_and_back() {
    let ws = GitWorkspace::from_prefix("/r/docs", "/r/docs", "docs\n").unwrap();
    for p in ["a.md", "x/./y/b.md", "c\\d.md"] {
        let repo = ws.repo_relative_path(p);
        let back = ws.vault_relative_path(&repo).unwrap();
        assert!(!back.is_empty());
    }
    assert_eq!(ws.repo_relative_path("x/./y//b.md"), "docs/x/y/b.md");
    assert_eq!(ws.vault_relative_path("docs\\w.md"), Some("w.md".to_string()));
    assert_eq!(ws.vault_relative_path("docsx/w.md"), None);
}
