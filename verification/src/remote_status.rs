//! The vault's position against its upstream: the branch, whether a remote and
//! an upstream exist, and how many commits each side is ahead.
use vstd::prelude::*;
use crate::command::{push_arg, push_lit, texts, CommandOutput};
use crate::remote::SyncTarget;
use crate::text::{
    decimal,
    chars_of, parse_unsigned, parse_unsigned_chars, prefixed, split, split_char, trim, views,
};

verus! {

/// The branch and its standing against the remote.
pub struct GitRemoteStatus {
    pub branch: String,
    pub ahead: u32,
    pub behind: u32,
    pub has_remote: bool,
    pub has_upstream: bool,
    pub upstream: Option<String>,
}

/// The standing of a repository without a configured remote.
pub fn status_without_remote(branch: String) -> (r: GitRemoteStatus)
    ensures
        r.branch == branch,
        r.ahead == 0 && r.behind == 0,
        !r.has_remote && !r.has_upstream,
        r.upstream is None,
{
    GitRemoteStatus {
        branch,
        ahead: 0,
        behind: 0,
        has_remote: false,
        has_upstream: false,
        upstream: None,
    }
}

/// The standing of a branch that has a remote but no upstream.
pub fn status_without_upstream(branch: String) -> (r: GitRemoteStatus)
    ensures
        r.branch == branch,
        r.ahead == 0 && r.behind == 0,
        r.has_remote && !r.has_upstream,
        r.upstream is None,
{
    GitRemoteStatus {
        branch,
        ahead: 0,
        behind: 0,
        has_remote: true,
        has_upstream: false,
        upstream: None,
    }
}

/// The standing of a branch that tracks `upstream`.
pub fn status_with_upstream(branch: String, upstream: String, ahead: u32, behind: u32) -> (r:
    GitRemoteStatus)
    ensures
        r.branch == branch,
        r.ahead == ahead && r.behind == behind,
        r.has_remote && r.has_upstream,
        r.upstream == Some(upstream),
{
    GitRemoteStatus { branch, ahead, behind, has_remote: true, has_upstream: true, upstream: Some(upstream) }
}

/// A count of `rev-list --count` output, 0 when it is not a `u32`.
pub open spec fn count_or_zero(s: Seq<char>) -> u32 {
    match parse_unsigned(s, u32::MAX as nat) {
        Some(n) => n as u32,
        None => 0,
    }
}

/// The ahead and behind counts of `<ahead>\t<behind>`; a missing or malformed
/// count is 0.
pub open spec fn ahead_behind(stdout: Seq<char>) -> (u32, u32) {
    let parts = split_char(stdout, '\t');
    (count_or_zero(parts[0]), if parts.len() > 1 {
        count_or_zero(parts[1])
    } else {
        0
    })
}

fn count_of(v: &[char]) -> (r: u32)
    ensures
        r == count_or_zero(v@),
{
    match parse_unsigned_chars(v, 0xffff_ffffu64) {
        Some(n) => n as u32,
        None => 0,
    }
}

pub fn parse_ahead_behind(stdout: &str) -> (r: (u32, u32))
    ensures
        r == ahead_behind(stdout@),
{
    let parts = split(chars_of(stdout).as_slice(), '\t');
    assert(views(parts@)[0] == parts@[0]@);
    let ahead = count_of(parts[0].as_slice());
    let behind = if parts.len() > 1 {
        assert(views(parts@)[1] == parts@[1]@);
        count_of(parts[1].as_slice())
    } else {
        0
    };
    (ahead, behind)
}

/// Arguments that count the commits on each side of `HEAD...<upstream>`.
pub fn ahead_behind_args(target: &SyncTarget) -> (r: Vec<String>)
    ensures
        texts(r@) == seq![
            "rev-list"@,
            "--left-right"@,
            "--count"@,
            "HEAD..."@ + target.display@,
        ],
{
    let mut r: Vec<String> = Vec::new();
    push_lit(&mut r, "rev-list");
    push_lit(&mut r, "--left-right");
    push_lit(&mut r, "--count");
    push_arg(&mut r, prefixed("HEAD...", target.display.as_str()));
    r
}

/// The standing of a branch with an upstream, from the outcome of counting the
/// commits on each side: the error of a count that could not be run, no counts
/// (0 and 0) when Git failed, else the counts of its trimmed output.
pub fn git_remote_status(branch: String, target: SyncTarget, counts: Result<CommandOutput, String>) -> (r:
    Result<GitRemoteStatus, String>)
    ensures
        match counts {
            Err(e) => r == Err::<GitRemoteStatus, String>(e),
            Ok(o) => r matches Ok(s) && s.branch == branch && s.has_remote && s.has_upstream
                && s.upstream == Some(target.display) && (s.ahead, s.behind) == (if o.success {
                ahead_behind(trim(o.stdout@))
            } else {
                (0u32, 0u32)
            }),
        },
{
    match counts {
        Err(e) => Err(e),
        Ok(o) => {
            let (ahead, behind) = if o.success {
                let t = crate::text::trim_string(o.stdout.as_str());
                parse_ahead_behind(t.as_str())
            } else {
                (0, 0)
            };
            Ok(status_with_upstream(branch, target.display, ahead, behind))
        },
    }
}

/// The counts of `rev-list --left-right --count` are read in order: Git's
/// `<ahead>\t<behind>` gives `ahead` first and `behind` second, for every pair
/// of counts.
pub proof fn law_counts_read_in_order(ahead: u32, behind: u32)
    ensures
        ahead_behind(decimal(ahead as nat) + seq!['\t'] + decimal(behind as nat)) == (ahead, behind),
{
    crate::text::lemma_decimal_without(ahead as nat, '\t');
    crate::text::lemma_decimal_without(behind as nat, '\t');
    crate::text::lemma_split_field(decimal(ahead as nat), decimal(behind as nat), '\t');
    crate::text::lemma_split_whole(decimal(behind as nat), '\t');
    crate::text::lemma_decimal_parses(ahead as nat, u32::MAX as nat);
    crate::text::lemma_decimal_parses(behind as nat, u32::MAX as nat);
    let parts = split_char(decimal(ahead as nat) + seq!['\t'] + decimal(behind as nat), '\t');
    assert(parts =~= seq![decimal(ahead as nat), decimal(behind as nat)]);
}

} // verus!
