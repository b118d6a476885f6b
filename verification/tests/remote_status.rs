use vault_git::command::CommandOutput;
use vault_git::remote::sync_target;
use vault_git::remote_status::{
    ahead_behind_args, git_remote_status, parse_ahead_behind, status_without_remote,
    status_without_upstream,
};

fn output(success: bool, stdout: &str, stderr: &str) -> CommandOutput {
    CommandOutput { success, stdout: stdout.to_string(), stderr: stderr.to_string() }
}

#[test]
fn git_remote_status_up_to_date() {
    let target = sync_target("origin/main\n").unwrap();
    assert_eq!(
        ahead_behind_args(&target),
        vec!["rev-list", "--left-right", "--count", "HEAD...origin/main"]
    );
    let status = git_remote_status("main".to_string(), target, Ok(output(true, "0\t0\n", ""))).unwrap();
    assert!(status.has_remote);
    assert!(status.has_upstream);
    assert_eq!(status.upstream.as_deref(), Some("origin/main"));
    assert_eq!(status.ahead, 0);
    assert_eq!(status.behind, 0);
}

#[test]
fn git_remote_status_ahead() {
    let target = sync_target("origin/main").unwrap();
    let status = git_remote_status("main".to_string(), target, Ok(output(true, "1\t0\n", ""))).unwrap();
    assert_eq!(status.ahead, 1);
    assert_eq!(status.behind, 0);
}

#[test]
fn git_remote_status_behind() {
    let target = sync_target("origin/main").unwrap();
    let status = git_remote_status("main".to_string(), target, Ok(output(true, "0\t1\n", ""))).unwrap();
    assert_eq!(status.behind, 1);
    assert_eq!(status.ahead, 0);
}

#[test]
fn git_remote_status_no_remote() {
    let status = status_without_remote("main".to_string());
    assert!(!status.has_remote);
    assert_eq!(status.ahead, 0);
    assert_eq!(status.behind, 0);
    let no_upstream = status_without_upstream("topic".to_string());
    assert!(no_upstream.has_remote);
    assert!(!no_upstream.has_upstream);
    assert_eq!(no_upstream.upstream, None);
}

#[test]
fn failed_counts_read_as_zero() {
    let target = sync_target("origin/main").unwrap();
    let status = git_remote_status("main".to_string(), target, Ok(output(false, "3\t4", "fatal"))).unwrap();
    assert_eq!((status.ahead, status.behind), (0, 0));
    let target = sync_target("origin/main").unwrap();
    assert_eq!(git_remote_status("main".to_string(), target, Err("gone".to_string())).err().unwrap(), "gone");
}

#[test]
fn ahead_behind_counts_parse_like_u32() {
    assert_eq!(parse_ahead_behind("2\t5"), (2, 5));
    assert_eq!(parse_ahead_behind("+7\tx"), (7, 0));
    assert_eq!(parse_ahead_behind("4294967296\t4294967295"), (0, 4294967295));
    assert_eq!(parse_ahead_behind(""), (0, 0));
    assert_eq!(parse_ahead_behind("9"), (9, 0));
}
