//! Committing a vault: stage everything under its pathspec, commit only that
//! pathspec, and retry once without signing when the signing helper fails.
use vstd::prelude::*;
use crate::command::{push_arg, push_lit, stderr_or_stdout, texts, CommandOutput};
use crate::text::{occurs_at, ascii_lower, ascii_lowercase, chars_of, contains, contains_lit, prefixed, string_from, trim, trim_string};
use crate::workspace::GitWorkspace;

verus! {

/// A `git commit` that did not succeed: what it wrote to each stream.
pub struct CommitFailure {
    pub stdout: String,
    pub stderr: String,
}

/// Git writes "nothing to commit" to standard output, so the detail falls back to it.
pub open spec fn failure_detail(stdout: Seq<char>, stderr: Seq<char>) -> Seq<char> {
    trim(stderr_or_stdout(stdout, stderr))
}

impl CommitFailure {
    pub fn detail(&self) -> (r: String)
        ensures
            r@ == failure_detail(self.stdout@, self.stderr@),
    {
        let stderr_trimmed = trim_string(self.stderr.as_str());
        if stderr_trimmed.as_str().is_empty() {
            trim_string(self.stdout.as_str())
        } else {
            stderr_trimmed
        }
    }
}

/// Whether a commit failed because signing failed rather than for another reason.
pub open spec fn is_signing_failure(detail: Seq<char>) -> bool {
    let lower = ascii_lower(detail);
    ||| contains(lower, "cannot run gpg"@)
    ||| contains(lower, "gpg failed to sign"@)
    ||| contains(lower, "failed to sign the data"@)
    ||| contains(lower, "gpg.ssh"@)
    ||| (contains(lower, "failed to write commit object"@) && (contains(lower, "sign"@) || contains(
        lower,
        "gpg"@,
    )))
}

pub fn is_commit_signing_failure(detail: &str) -> (r: bool)
    ensures
        r == is_signing_failure(detail@),
{
    let v = chars_of(detail);
    let lower = ascii_lowercase(v.as_slice());
    let l = lower.as_slice();
    contains_lit(l, "cannot run gpg") || contains_lit(l, "gpg failed to sign") || contains_lit(
        l,
        "failed to sign the data",
    ) || contains_lit(l, "gpg.ssh") || (contains_lit(l, "failed to write commit object") && (
    contains_lit(l, "sign") || contains_lit(l, "gpg")))
}

/// Arguments of `git add -A -- <pathspec>`.
pub open spec fn add_args_spec(pathspec: Seq<char>) -> Seq<Seq<char>> {
    seq!["add"@, "-A"@, "--"@, pathspec]
}

pub fn add_args(ws: &GitWorkspace) -> (r: Vec<String>)
    ensures
        texts(r@) == add_args_spec(ws@.pathspec_arg()),
{
    let mut r: Vec<String> = Vec::new();
    push_lit(&mut r, "add");
    push_lit(&mut r, "-A");
    push_lit(&mut r, "--");
    push_arg(&mut r, ws.vault_pathspec());
    assert(texts(r@) =~= add_args_spec(ws@.pathspec_arg()));
    r
}

/// What staging the vault came to: the error to report, if any.
pub fn add_outcome(outcome: Result<CommandOutput, String>) -> (r: Result<(), String>)
    ensures
        match outcome {
            Err(e) => r matches Err(m) && m@ == "Failed to run git add: "@ + e@,
            Ok(o) => if o.success {
                r is Ok
            } else {
                r matches Err(m) && m@ == "git add failed: "@ + o.stderr@
            },
        },
{
    match outcome {
        Err(e) => Err(prefixed("Failed to run git add: ", e.as_str())),
        Ok(o) => if o.success {
            Ok(())
        } else {
            Err(prefixed("git add failed: ", o.stderr.as_str()))
        },
    }
}

/// Arguments of the commit of the vault's pathspec, optionally with signing disabled.
pub open spec fn commit_args_spec(message: Seq<char>, pathspec: Seq<char>, disable_signing: bool) -> Seq<
    Seq<char>,
> {
    (if disable_signing {
        seq!["-c"@, "commit.gpgsign=false"@]
    } else {
        seq![]
    }) + seq!["commit"@, "--only"@, "-m"@, message, "--"@, pathspec]
}

pub fn commit_args(ws: &GitWorkspace, message: &str, disable_signing: bool) -> (r: Vec<String>)
    ensures
        texts(r@) == commit_args_spec(message@, ws@.pathspec_arg(), disable_signing),
{
    let mut r: Vec<String> = Vec::new();
    if disable_signing {
        push_lit(&mut r, "-c");
        push_lit(&mut r, "commit.gpgsign=false");
    }
    push_lit(&mut r, "commit");
    push_lit(&mut r, "--only");
    push_lit(&mut r, "-m");
    push_lit(&mut r, message);
    push_lit(&mut r, "--");
    push_arg(&mut r, ws.vault_pathspec());
    assert(texts(r@) =~= commit_args_spec(message@, ws@.pathspec_arg(), disable_signing));
    r
}

/// What one commit attempt came to: its standard output, or the failure.
pub fn run_commit(outcome: Result<CommandOutput, String>) -> (r: Result<String, CommitFailure>)
    ensures
        match outcome {
            Err(e) => r matches Err(f) && f.stdout@.len() == 0 && f.stderr@
                == "Failed to run git commit: "@ + e@,
            Ok(o) => if o.success {
                r matches Ok(s) && s@ == o.stdout@
            } else {
                r matches Err(f) && f.stdout@ == o.stdout@ && f.stderr@ == o.stderr@
            },
        },
{
    match outcome {
        Err(e) => Err(
            CommitFailure {
                stdout: String::new(),
                stderr: prefixed("Failed to run git commit: ", e.as_str()),
            },
        ),
        Ok(o) => if o.success {
            Ok(o.stdout)
        } else {
            Err(CommitFailure { stdout: o.stdout, stderr: o.stderr })
        },
    }
}

/// What follows the first commit attempt.
pub enum CommitNext {
    /// The commit is over, with this result.
    Finished(Result<String, String>),
    /// Signing failed: commit once more with signing disabled.
    RetryUnsigned,
}

/// The decision after the (signed, as configured) commit attempt: success ends
/// the commit, a signing failure asks for one unsigned retry, and any other
/// failure is reported.
pub fn git_commit(first: Result<String, CommitFailure>) -> (r: CommitNext)
    ensures
        match first {
            Ok(s) => r matches CommitNext::Finished(Ok(o)) && o == s,
            Err(f) => if is_signing_failure(failure_detail(f.stdout@, f.stderr@)) {
                r is RetryUnsigned
            } else {
                r matches CommitNext::Finished(Err(m)) && m@ == "git commit failed: "@
                    + failure_detail(f.stdout@, f.stderr@)
            },
        },
{
    match first {
        Ok(s) => CommitNext::Finished(Ok(s)),
        Err(f) => {
            let detail = f.detail();
            if is_commit_signing_failure(detail.as_str()) {
                CommitNext::RetryUnsigned
            } else {
                CommitNext::Finished(Err(prefixed("git commit failed: ", detail.as_str())))
            }
        },
    }
}

/// The result of the unsigned retry.
pub fn unsigned_retry_result(retry: Result<String, CommitFailure>) -> (r: Result<String, String>)
    ensures
        match retry {
            Ok(s) => r == Ok::<String, String>(s),
            Err(f) => r matches Err(m) && m@
                == "git commit signing failed; retried without signing but git commit still failed: "@
                + failure_detail(f.stdout@, f.stderr@),
        },
{
    match retry {
        Ok(s) => Ok(s),
        Err(f) => {
            let detail = f.detail();
            Err(
                prefixed(
                    "git commit signing failed; retried without signing but git commit still failed: ",
                    detail.as_str(),
                ),
            )
        },
    }
}

/// An author setting that commits need.
#[derive(Clone, Copy, PartialEq, Eq, Structural)]
pub enum AuthorKey {
    Name,
    Email,
}

impl AuthorKey {
    pub open spec fn key_spec(self) -> Seq<char> {
        match self {
            AuthorKey::Name => "user.name"@,
            AuthorKey::Email => "user.email"@,
        }
    }

    /// The identity used where Git has none configured.
    pub open spec fn fallback_spec(self) -> Seq<char> {
        match self {
            AuthorKey::Name => "Tolaria"@,
            AuthorKey::Email => "vault@tolaria.default"@,
        }
    }

    pub fn key(self) -> (r: String)
        ensures
            r@ == self.key_spec(),
    {
        match self {
            AuthorKey::Name => string_from("user.name"),
            AuthorKey::Email => string_from("user.email"),
        }
    }

    pub fn fallback(self) -> (r: String)
        ensures
            r@ == self.fallback_spec(),
    {
        match self {
            AuthorKey::Name => string_from("Tolaria"),
            AuthorKey::Email => string_from("vault@tolaria.default"),
        }
    }
}

/// Arguments that read an author setting.
pub fn author_read_args(which: AuthorKey) -> (r: Vec<String>)
    ensures
        texts(r@) == seq!["config"@, which.key_spec()],
{
    let mut r: Vec<String> = Vec::new();
    push_lit(&mut r, "config");
    push_arg(&mut r, which.key());
    r
}

/// What reading an author setting calls for: nothing when Git has a non-blank
/// value, else the arguments that store the fallback in the repository's own
/// configuration; the error when Git could not be run.
pub fn author_setting(which: AuthorKey, current: Result<CommandOutput, String>) -> (r: Result<
    Option<Vec<String>>,
    String,
>)
    ensures
        match current {
            Err(e) => r matches Err(m) && m@ == "Failed to read git config "@ + which.key_spec()
                + ": "@ + e@,
            Ok(o) => if o.success && trim(o.stdout@).len() > 0 {
                r matches Ok(None)
            } else {
                r matches Ok(Some(a)) && texts(a@) == seq![
                    "config"@,
                    "--local"@,
                    which.key_spec(),
                    which.fallback_spec(),
                ]
            },
        },
{
    match current {
        Err(e) => {
            let mut m = chars_of("Failed to read git config ");
            crate::text::push_all(&mut m, chars_of(which.key().as_str()).as_slice());
            crate::text::push_all(&mut m, chars_of(": ").as_slice());
            crate::text::push_all(&mut m, chars_of(e.as_str()).as_slice());
            Err(crate::text::string_of(m.as_slice()))
        },
        Ok(o) => {
            let t = trim_string(o.stdout.as_str());
            if o.success && !t.as_str().is_empty() {
                return Ok(None);
            }
            let mut a: Vec<String> = Vec::new();
            push_lit(&mut a, "config");
            push_lit(&mut a, "--local");
            push_arg(&mut a, which.key());
            push_arg(&mut a, which.fallback());
            Ok(Some(a))
        },
    }
}

/// What storing a fallback author setting came to.
pub fn author_set_outcome(outcome: Result<CommandOutput, String>) -> (r: Result<(), String>)
    ensures
        match outcome {
            Err(e) => r matches Err(m) && m@ == "Failed to set git config: "@ + e@,
            Ok(o) => if o.success {
                r is Ok
            } else {
                r matches Err(m) && m@ == crate::command::stderr_or_failure_spec(
                    "git config"@,
                    o.stderr@,
                )
            },
        },
{
    match outcome {
        Err(e) => Err(prefixed("Failed to set git config: ", e.as_str())),
        Ok(o) => if o.success {
            Ok(())
        } else {
            Err(crate::command::stderr_or_failure("git config", &o))
        },
    }
}

/// What a failed commit reports: Git's error output, trimmed, whenever it is
/// not blank; otherwise its standard output, trimmed (where Git says "nothing
/// to commit").
pub proof fn law_commit_failure_detail(stdout: Seq<char>, stderr: Seq<char>)
    ensures
        trim(stderr).len() > 0 ==> failure_detail(stdout, stderr) == trim(stderr),
        trim(stderr).len() == 0 ==> failure_detail(stdout, stderr) == trim(stdout),
{
}

/// The texts by which a failed commit shows that signing failed.
pub open spec fn signing_markers() -> Seq<Seq<char>> {
    seq!["cannot run gpg"@, "gpg failed to sign"@, "failed to sign the data"@, "gpg.ssh"@]
}

/// A commit failure whose text (in any letter case) says that signing failed
/// counts as a signing failure, and so does a failure to write the commit
/// object that mentions signing or gpg; a failure whose text mentions neither
/// signing nor gpg never does.
pub proof fn law_signing_failures(detail: Seq<char>)
    ensures
        (exists|i: int| 0 <= i < signing_markers().len() && contains(ascii_lower(detail), #[trigger] signing_markers()[i]))
            ==> is_signing_failure(detail),
        contains(ascii_lower(detail), "failed to write commit object"@) && (contains(
            ascii_lower(detail),
            "sign"@,
        ) || contains(ascii_lower(detail), "gpg"@)) ==> is_signing_failure(detail),
        !contains(ascii_lower(detail), "sign"@) && !contains(ascii_lower(detail), "gpg"@)
            ==> !is_signing_failure(detail),
{
    reveal_strlit("cannot run gpg");
    reveal_strlit("gpg failed to sign");
    reveal_strlit("failed to sign the data");
    reveal_strlit("gpg.ssh");
    reveal_strlit("gpg");
    reveal_strlit("sign");
    let lower = ascii_lower(detail);
    if exists|i: int| 0 <= i < signing_markers().len() && contains(lower, #[trigger] signing_markers()[i]) {
        let i = choose|i: int| 0 <= i < signing_markers().len() && contains(lower, #[trigger] signing_markers()[i]);
        assert(i == 0 || i == 1 || i == 2 || i == 3);
    }
    if !contains(lower, "sign"@) && !contains(lower, "gpg"@) {
        assert("cannot run gpg"@.subrange(11, 14) =~= "gpg"@);
        assert("gpg failed to sign"@.subrange(0, 3) =~= "gpg"@);
        assert("failed to sign the data"@.subrange(10, 14) =~= "sign"@);
        assert("gpg.ssh"@.subrange(0, 3) =~= "gpg"@);
        lemma_contains_within(lower, "cannot run gpg"@, "gpg"@, 11);
        lemma_contains_within(lower, "gpg failed to sign"@, "gpg"@, 0);
        lemma_contains_within(lower, "failed to sign the data"@, "sign"@, 10);
        lemma_contains_within(lower, "gpg.ssh"@, "gpg"@, 0);
    }
}

/// A text that holds `big` holds every part of `big`.
proof fn lemma_contains_within(s: Seq<char>, big: Seq<char>, part: Seq<char>, at: int)
    requires
        0 <= at,
        at + part.len() <= big.len(),
        big.subrange(at, at + part.len()) == part,
    ensures
        contains(s, big) ==> contains(s, part),
{
    if contains(s, big) {
        let i = choose|i: int| occurs_at(s, big, i);
        assert(s.subrange(i + at, i + at + part.len()) =~= big.subrange(at, at + part.len()));
        assert(occurs_at(s, part, i + at));
    }
}

/// A vault commit stages with `add -A -- <pathspec>` and commits with
/// `commit --only -m <message> -- <pathspec>`, so nothing outside the vault's
/// pathspec is staged or committed; the retry only adds `-c commit.gpgsign=false`
/// in front.
pub proof fn law_commit_arguments(message: Seq<char>, pathspec: Seq<char>, disable_signing: bool)
    ensures
        add_args_spec(pathspec) == seq!["add"@, "-A"@, "--"@, pathspec],
        !disable_signing ==> commit_args_spec(message, pathspec, false) == seq![
            "commit"@,
            "--only"@,
            "-m"@,
            message,
            "--"@,
            pathspec,
        ],
        commit_args_spec(message, pathspec, true) == seq![
            "-c"@,
            "commit.gpgsign=false"@,
            "commit"@,
            "--only"@,
            "-m"@,
            message,
            "--"@,
            pathspec,
        ],
{
    assert(commit_args_spec(message, pathspec, false) =~= seq!["commit"@, "--only"@, "-m"@, message, "--"@, pathspec]);
    assert(commit_args_spec(message, pathspec, true) =~= seq![
        "-c"@,
        "commit.gpgsign=false"@,
        "commit"@,
        "--only"@,
        "-m"@,
        message,
        "--"@,
        pathspec,
    ]);
}

} // verus!
