//! Pull and push against the vault's remote: command arguments, how Git's
//! output is read, and how push failures are told apart.
use vstd::prelude::*;
use crate::command::{push_arg, push_lit, texts, CommandOutput};
use crate::text::{
    chars_of, contains, contains_lit, decimal, decimal_string, lines, lines_of, prefixed,
    slice_of, split, split_char, starts_with, string_from, string_of, to_lowercase, trim,
    trim_chars, trim_start, trim_start_chars, has_prefix, unicode_lowercase, views,
};
use crate::workspace::{vault_relative, GitWorkspace, WorkspaceView};

verus! {

/// Outcome of a pull: status is one of "up_to_date", "updated", "conflict",
/// "no_remote" or "error".
pub struct GitPullResult {
    pub status: String,
    pub message: String,
    pub updated_files: Vec<String>,
    pub conflict_files: Vec<String>,
}

/// Outcome of a push: status is one of "ok", "rejected", "auth_error",
/// "network_error", "no_remote" or "error".
pub struct GitPushResult {
    pub status: String,
    pub message: String,
}

/// A pull result with no files.
pub fn pull_result(status: &str, message: &str) -> (r: GitPullResult)
    ensures
        r.status@ == status@,
        r.message@ == message@,
        r.updated_files@.len() == 0,
        r.conflict_files@.len() == 0,
{
    GitPullResult {
        status: string_from(status),
        message: string_from(message),
        updated_files: Vec::new(),
        conflict_files: Vec::new(),
    }
}

/// Pulling without a configured remote.
pub fn no_remote_pull_result() -> (r: GitPullResult)
    ensures
        r.status@ == "no_remote"@,
        r.message@ == "No remote configured"@,
        r.updated_files@.len() == 0,
        r.conflict_files@.len() == 0,
{
    pull_result("no_remote", "No remote configured")
}

/// Pushing without a configured remote.
pub fn no_remote_push_result() -> (r: GitPushResult)
    ensures
        r.status@ == "no_remote"@,
        r.message@ == "No remote configured"@,
{
    GitPushResult { status: string_from("no_remote"), message: string_from("No remote configured") }
}

/// Whether a Git answer about remotes shows at least one configured remote URL:
/// the command succeeded and printed a line with more than whitespace.
pub open spec fn shows_remote_url(o_success: bool, stdout: Seq<char>) -> bool {
    o_success && exists|i: int|
        0 <= i < lines(stdout).len() && trim(#[trigger] lines(stdout)[i]).len() > 0
}

pub fn has_configured_remote(output: &CommandOutput) -> (r: bool)
    ensures
        r == shows_remote_url(output.success, output.stdout@),
{
    if !output.success {
        return false;
    }
    let v = chars_of(output.stdout.as_str());
    let ls = lines_of(v.as_slice());
    for i in 0..ls.len()
        invariant
            output.success,
            views(ls@) == lines(output.stdout@),
            forall|k: int| 0 <= k < i ==> trim(#[trigger] lines(output.stdout@)[k]).len() == 0,
    {
        let t = trim_chars(ls[i].as_slice());
        assert(lines(output.stdout@)[i as int] == ls@[i as int]@);
        if t.len() > 0 {
            assert(trim(lines(output.stdout@)[i as int]).len() > 0);
            return true;
        }
    }
    false
}

/// Whether the vault has a remote: false outside a work tree, else what the
/// configuration shows.
pub fn has_remote(in_work_tree: bool, configured: Result<bool, String>) -> (r: Result<bool, String>)
    ensures
        !in_work_tree ==> r == Ok::<bool, String>(false),
        in_work_tree ==> r == configured,
{
    if !in_work_tree {
        Ok(false)
    } else {
        configured
    }
}

/// The remote and branch that pull and push use.
pub struct SyncTarget {
    pub remote: String,
    pub branch: String,
    pub display: String,
}

/// The sync target named by an upstream such as `origin/main`.
pub open spec fn sync_target_of(upstream: Seq<char>) -> Option<(Seq<char>, Seq<char>)> {
    let t = trim(upstream);
    let i = crate::text::find_char(t, '/');
    if i <= 0 || i + 1 >= t.len() {
        None
    } else {
        Some((t.subrange(0, i), t.subrange(i + 1, t.len() as int)))
    }
}

pub fn sync_target(upstream: &str) -> (r: Option<SyncTarget>)
    ensures
        match r {
            Some(t) => sync_target_of(upstream@) == Some((t.remote@, t.branch@)) && t.display@
                == trim(upstream@),
            None => sync_target_of(upstream@) is None,
        },
{
    let v = chars_of(upstream);
    let t = trim_chars(v.as_slice());
    proof {
        crate::text::lemma_find_char(t@, '/');
    }
    match crate::text::find(t.as_slice(), '/') {
        None => None,
        Some(i) => {
            if i == 0 || t.len() - i <= 1 {
                None
            } else {
                Some(
                    SyncTarget {
                        remote: string_of(slice_of(t.as_slice(), 0, i).as_slice()),
                        branch: string_of(slice_of(t.as_slice(), i + 1, t.len()).as_slice()),
                        display: string_of(t.as_slice()),
                    },
                )
            }
        },
    }
}

/// Arguments that ask for the upstream of the current branch.
pub fn upstream_args() -> (r: Vec<String>)
    ensures
        texts(r@) == seq!["rev-parse"@, "--abbrev-ref"@, "--symbolic-full-name"@, "@{u}"@],
{
    let mut r: Vec<String> = Vec::new();
    push_lit(&mut r, "rev-parse");
    push_lit(&mut r, "--abbrev-ref");
    push_lit(&mut r, "--symbolic-full-name");
    push_lit(&mut r, "@{u}");
    r
}

/// The sync target from the outcome of asking for the upstream: no target when
/// Git found none, the error when it could not be run.
pub fn upstream_target(outcome: Result<CommandOutput, String>) -> (r: Result<Option<SyncTarget>, String>)
    ensures
        match outcome {
            Err(e) => r matches Err(m) && m@ == "Failed to read upstream: "@ + e@,
            Ok(o) => if o.success {
                r matches Ok(t) && match t {
                    Some(t) => sync_target_of(o.stdout@) == Some((t.remote@, t.branch@)) && t.display@
                        == trim(o.stdout@),
                    None => sync_target_of(o.stdout@) is None,
                }
            } else {
                r matches Ok(None)
            },
        },
{
    match outcome {
        Err(e) => Err(prefixed("Failed to read upstream: ", e.as_str())),
        Ok(o) => if o.success {
            Ok(sync_target(o.stdout.as_str()))
        } else {
            Ok(None)
        },
    }
}

/// The report for a branch without upstream.
pub fn missing_upstream_message(branch: &str) -> (r: String)
    ensures
        r@ == "No upstream branch is configured for "@ + branch@,
{
    prefixed("No upstream branch is configured for ", branch)
}

/// Arguments of `git pull --no-rebase <remote> <branch>`.
pub fn pull_args(target: &SyncTarget) -> (r: Vec<String>)
    ensures
        texts(r@) == seq!["pull"@, "--no-rebase"@, target.remote@, target.branch@],
{
    let mut r: Vec<String> = Vec::new();
    push_lit(&mut r, "pull");
    push_lit(&mut r, "--no-rebase");
    push_lit(&mut r, target.remote.as_str());
    push_lit(&mut r, target.branch.as_str());
    assert(texts(r@) =~= seq!["pull"@, "--no-rebase"@, target.remote@, target.branch@]);
    r
}

/// Arguments of `git push <remote> HEAD:refs/heads/<branch>`.
pub fn push_args(target: &SyncTarget) -> (r: Vec<String>)
    ensures
        texts(r@) == seq!["push"@, target.remote@, "HEAD:refs/heads/"@ + target.branch@],
{
    let mut r: Vec<String> = Vec::new();
    push_lit(&mut r, "push");
    push_lit(&mut r, target.remote.as_str());
    push_arg(&mut r, prefixed("HEAD:refs/heads/", target.branch.as_str()));
    assert(texts(r@) =~= seq!["push"@, target.remote@, "HEAD:refs/heads/"@ + target.branch@]);
    r
}

/// The file paths of a diffstat: the text before `|` on each line that has one.
pub open spec fn updated_files(ls: Seq<Seq<char>>) -> Seq<Seq<char>>
    decreases ls.len(),
{
    if ls.len() == 0 {
        seq![]
    } else {
        let rest = updated_files(ls.drop_last());
        let t = trim(ls.last());
        let path = trim(split_char(t, '|')[0]);
        if contains(t, seq!['|']) && path.len() > 0 {
            rest.push(path)
        } else {
            rest
        }
    }
}

/// The paths that a `git pull` diffstat lists.
pub fn parse_updated_files(stdout: &str) -> (r: Vec<String>)
    ensures
        texts(r@) == updated_files(lines(stdout@)),
{
    let v = chars_of(stdout);
    let ls = lines_of(v.as_slice());
    let mut out: Vec<String> = Vec::new();
    let bar = ['|'];
    assert(bar@ =~= seq!['|']);
    for i in 0..ls.len()
        invariant
            views(ls@) == lines(stdout@),
            bar@ == seq!['|'],
            texts(out@) == updated_files(views(ls@).take(i as int)),
    {
        assert(views(ls@).take(i + 1).drop_last() =~= views(ls@).take(i as int));
        let t = trim_chars(ls[i].as_slice());
        let parts = split(t.as_slice(), '|');
        assert(split_char(t@, '|').len() > 0);
        assert(views(parts@)[0] == parts@[0]@);
        let path = trim_chars(parts[0].as_slice());
        assert(views(ls@).take(i + 1).last() == ls@[i as int]@);
        if crate::text::contains_chars(t.as_slice(), &bar) && path.len() > 0 {
            let ghost before = out@;
            out.push(string_of(path.as_slice()));
            proof {
                crate::command::lemma_texts_push(before, out@.last());
                assert(out@ == before.push(out@.last()));
            }
        }
    }
    assert(views(ls@).take(ls@.len() as int) =~= views(ls@));
    out
}

/// Paths of a repository-relative list that lie in the vault, made vault-relative.
pub open spec fn scoped_paths(pathspec: Seq<char>, files: Seq<Seq<char>>) -> Seq<Seq<char>>
    decreases files.len(),
{
    if files.len() == 0 {
        seq![]
    } else {
        let rest = scoped_paths(pathspec, files.drop_last());
        match vault_relative(pathspec, files.last()) {
            Some(p) => rest.push(p),
            None => rest,
        }
    }
}

pub fn scope_updated_files(files: Vec<String>, ws: &GitWorkspace) -> (r: Vec<String>)
    ensures
        texts(r@) == scoped_paths(ws@.pathspec, texts(files@)),
{
    let mut out: Vec<String> = Vec::new();
    for i in 0..files.len()
        invariant
            texts(out@) == scoped_paths(ws@.pathspec, texts(files@).take(i as int)),
    {
        assert(texts(files@).take(i + 1).drop_last() =~= texts(files@).take(i as int));
        assert(texts(files@).take(i + 1).last() == files@[i as int]@);
        match ws.vault_relative_path(files[i].as_str()) {
            Some(p) => {
                proof {
                    crate::command::lemma_texts_push(out@, p);
                }
                out.push(p);
            },
            None => {},
        }
    }
    assert(texts(files@).take(files@.len() as int) =~= texts(files@));
    out
}

/// A message marked as concerning the parent repository when the vault is nested.
pub open spec fn scope_message(uses_parent: bool, message: Seq<char>) -> Seq<char> {
    if uses_parent {
        "Parent repository: "@ + message
    } else {
        message
    }
}

pub fn repository_scope_message(ws: &GitWorkspace, message: &str) -> (r: String)
    ensures
        r@ == scope_message(ws@.uses_parent(), message@),
{
    if ws.uses_parent_repository() {
        prefixed("Parent repository: ", message)
    } else {
        string_from(message)
    }
}

/// Whether a successful pull's output says that nothing changed.
pub open spec fn already_up_to_date(stdout: Seq<char>) -> bool {
    contains(stdout, "Already up to date"@) || contains(stdout, "Already up-to-date"@)
}

/// The report of a finished pull, as status, message, updated vault files and
/// conflicted files.
pub open spec fn pull_report(
    ws: WorkspaceView,
    succeeded: bool,
    stdout: Seq<char>,
    stderr: Seq<char>,
    conflicts: Seq<Seq<char>>,
) -> (Seq<char>, Seq<char>, Seq<Seq<char>>, Seq<Seq<char>>) {
    if succeeded {
        if already_up_to_date(stdout) {
            ("up_to_date"@, scope_message(ws.uses_parent(), "Already up to date"@), seq![], seq![])
        } else {
            let updated = scoped_paths(ws.pathspec, updated_files(lines(stdout)));
            (
                "updated"@,
                scope_message(ws.uses_parent(), decimal(updated.len()) + " vault file(s) updated"@),
                updated,
                seq![],
            )
        }
    } else if conflicts.len() > 0 {
        ("conflict"@, "Merge conflict in "@ + decimal(conflicts.len()) + " file(s)"@, seq![], conflicts)
    } else {
        ("error"@, if trim(stderr).len() == 0 {
            trim(stdout)
        } else {
            trim(stderr)
        }, seq![], seq![])
    }
}

/// The report of a pull result.
pub open spec fn pull_view(p: GitPullResult) -> (Seq<char>, Seq<char>, Seq<Seq<char>>, Seq<Seq<char>>) {
    (p.status@, p.message@, texts(p.updated_files@), texts(p.conflict_files@))
}

/// What a finished `git pull` came to. `conflicts` are the vault's unmerged
/// files, read after a failed pull (they are not looked at after a success).
pub fn pull_output_result(
    ws: &GitWorkspace,
    succeeded: bool,
    stdout: &str,
    stderr: &str,
    conflicts: Vec<String>,
) -> (r: GitPullResult)
    ensures
        pull_view(r) == pull_report(ws@, succeeded, stdout@, stderr@, texts(conflicts@)),
{
    let out = chars_of(stdout);
    if succeeded {
        if contains_lit(out.as_slice(), "Already up to date") || contains_lit(
            out.as_slice(),
            "Already up-to-date",
        ) {
            let m = repository_scope_message(ws, "Already up to date");
            return pull_result("up_to_date", m.as_str());
        }
        let updated = scope_updated_files(parse_updated_files(stdout), ws);
        let count = decimal_string(updated.len() as u64);
        let mut text = chars_of(count.as_str());
        let suffix = chars_of(" vault file(s) updated");
        crate::text::push_all(&mut text, suffix.as_slice());
        let text = string_of(text.as_slice());
        let message = repository_scope_message(ws, text.as_str());
        return GitPullResult {
            status: string_from("updated"),
            message,
            updated_files: updated,
            conflict_files: Vec::new(),
        };
    }
    if conflicts.len() > 0 {
        let count = decimal_string(conflicts.len() as u64);
        let mut m = chars_of("Merge conflict in ");
        crate::text::push_all(&mut m, chars_of(count.as_str()).as_slice());
        crate::text::push_all(&mut m, chars_of(" file(s)").as_slice());
        return GitPullResult {
            status: string_from("conflict"),
            message: string_of(m.as_slice()),
            updated_files: Vec::new(),
            conflict_files: conflicts,
        };
    }
    let err = trim_chars(chars_of(stderr).as_slice());
    let detail = if err.len() == 0 {
        trim_chars(out.as_slice())
    } else {
        err
    };
    pull_result("error", string_of(detail.as_slice()).as_str())
}

/// What `git pull` came to, from its run or the error that kept it from starting.
pub fn git_pull(
    ws: &GitWorkspace,
    outcome: Result<CommandOutput, String>,
    conflicts: Vec<String>,
) -> (r: Result<GitPullResult, String>)
    ensures
        match outcome {
            Err(e) => r matches Err(m) && m@ == "Failed to run git pull: "@ + e@,
            Ok(o) => r matches Ok(p) && pull_view(p) == pull_report(
                ws@,
                o.success,
                o.stdout@,
                o.stderr@,
                texts(conflicts@),
            ),
        },
{
    match outcome {
        Err(e) => Err(prefixed("Failed to run git pull: ", e.as_str())),
        Ok(o) => Ok(pull_output_result(ws, o.success, o.stdout.as_str(), o.stderr.as_str(), conflicts)),
    }
}

pub open spec fn is_rejected(lower: Seq<char>) -> bool {
    ||| contains(lower, "non-fast-forward"@)
    ||| contains(lower, "[rejected]"@)
    ||| contains(lower, "fetch first"@)
    ||| (contains(lower, "failed to push some refs"@) && (contains(lower, "updates were rejected"@)
        || contains(lower, "non-fast-forward"@)))
}

pub open spec fn is_auth_error(lower: Seq<char>) -> bool {
    ||| contains(lower, "authentication failed"@)
    ||| contains(lower, "could not read username"@)
    ||| contains(lower, "permission denied"@)
    ||| contains(lower, "403"@)
    ||| contains(lower, "invalid credentials"@)
}

pub open spec fn is_network_error(lower: Seq<char>) -> bool {
    ||| contains(lower, "could not resolve host"@)
    ||| contains(lower, "unable to access"@)
    ||| contains(lower, "connection refused"@)
    ||| contains(lower, "network is unreachable"@)
    ||| contains(lower, "timed out"@)
}

pub open spec fn is_no_remote_error(lower: Seq<char>) -> bool {
    ||| contains(lower, "no configured push destination"@)
    ||| contains(lower, "does not appear to be a git repository"@)
    ||| contains(lower, "no such remote"@)
    ||| contains(lower, "no upstream branch"@)
}

fn is_rejected_push_error(lower: &[char]) -> (r: bool)
    ensures
        r == is_rejected(lower@),
{
    if contains_lit(lower, "non-fast-forward") || contains_lit(lower, "[rejected]") || contains_lit(
        lower,
        "fetch first",
    ) {
        return true;
    }
    if !contains_lit(lower, "failed to push some refs") {
        return false;
    }
    contains_lit(lower, "updates were rejected") || contains_lit(lower, "non-fast-forward")
}

fn is_auth_push_error(lower: &[char]) -> (r: bool)
    ensures
        r == is_auth_error(lower@),
{
    contains_lit(lower, "authentication failed") || contains_lit(lower, "could not read username")
        || contains_lit(lower, "permission denied") || contains_lit(lower, "403") || contains_lit(
        lower,
        "invalid credentials",
    )
}

fn is_network_push_error(lower: &[char]) -> (r: bool)
    ensures
        r == is_network_error(lower@),
{
    contains_lit(lower, "could not resolve host") || contains_lit(lower, "unable to access")
        || contains_lit(lower, "connection refused") || contains_lit(lower, "network is unreachable")
        || contains_lit(lower, "timed out")
}

fn is_no_remote_push_error(lower: &[char]) -> (r: bool)
    ensures
        r == is_no_remote_error(lower@),
{
    contains_lit(lower, "no configured push destination") || contains_lit(
        lower,
        "does not appear to be a git repository",
    ) || contains_lit(lower, "no such remote") || contains_lit(lower, "no upstream branch")
}

pub open spec fn is_hint_line(l: Seq<char>) -> bool {
    starts_with(trim_start(l), "hint:"@)
}

/// The text after `hint:` on the first hint line, trimmed.
pub open spec fn first_hint(ls: Seq<Seq<char>>) -> Option<Seq<char>>
    decreases ls.len(),
{
    if ls.len() == 0 {
        None
    } else if is_hint_line(ls[0]) {
        Some(trim(trim_start(ls[0]).subrange(5, trim_start(ls[0]).len() as int)))
    } else {
        first_hint(ls.drop_first())
    }
}

/// The detail of an unrecognised push failure: its first hint, else the whole
/// error text trimmed.
pub open spec fn push_error_detail_spec(stderr: Seq<char>) -> Seq<char> {
    let hint = match first_hint(lines(stderr)) {
        Some(h) => h,
        None => seq![],
    };
    if hint.len() == 0 {
        trim(stderr)
    } else {
        hint
    }
}

proof fn lemma_first_hint_skip(ls: Seq<Seq<char>>, i: int)
    requires
        0 <= i <= ls.len(),
        forall|k: int| 0 <= k < i ==> !is_hint_line(#[trigger] ls[k]),
    ensures
        first_hint(ls) == first_hint(ls.subrange(i, ls.len() as int)),
    decreases i,
{
    if i == 0 {
        assert(ls.subrange(0, ls.len() as int) =~= ls);
    } else {
        assert(!is_hint_line(ls[0]));
        let t = ls.drop_first();
        assert forall|k: int| 0 <= k < i - 1 implies !is_hint_line(#[trigger] t[k]) by {
            assert(t[k] == ls[k + 1]);
        }
        lemma_first_hint_skip(t, i - 1);
        assert(t.subrange(i - 1, t.len() as int) =~= ls.subrange(i, ls.len() as int));
    }
}

fn push_error_detail(stderr: &str) -> (r: String)
    ensures
        r@ == push_error_detail_spec(stderr@),
{
    let v = chars_of(stderr);
    let ls = lines_of(v.as_slice());
    let hint_lit = chars_of("hint:");
    let mut found: Option<usize> = None;
    let mut i: usize = 0;
    while i < ls.len() && found.is_none()
        invariant
            views(ls@) == lines(stderr@),
            hint_lit@ == "hint:"@,
            i <= ls@.len(),
            found is None ==> forall|k: int| 0 <= k < i ==> !is_hint_line(#[trigger] views(ls@)[k]),
            found matches Some(j) ==> j < ls@.len() && is_hint_line(views(ls@)[j as int]) && forall|
                k: int,
            | 0 <= k < j ==> !is_hint_line(#[trigger] views(ls@)[k]),
        decreases ls@.len() - i,
    {
        let ts = trim_start_chars(ls[i].as_slice());
        assert(views(ls@)[i as int] == ls@[i as int]@);
        if has_prefix(ts.as_slice(), hint_lit.as_slice()) {
            found = Some(i);
        }
        i += 1;
    }
    let hint: Vec<char> = match found {
        Some(j) => {
            let ts = trim_start_chars(ls[j].as_slice());
            proof {
                lemma_first_hint_skip(views(ls@), j as int);
                assert(views(ls@).subrange(j as int, ls@.len() as int)[0] == ls@[j as int]@);
                assert(views(ls@)[j as int] == ls@[j as int]@);
                reveal_strlit("hint:");
            }
            trim_chars(slice_of(ts.as_slice(), 5, ts.len()).as_slice())
        },
        None => {
            proof {
                lemma_first_hint_skip(views(ls@), ls@.len() as int);
                assert(views(ls@).subrange(ls@.len() as int, ls@.len() as int).len() == 0);
            }
            Vec::new()
        },
    };
    if hint.len() == 0 {
        string_of(trim_chars(v.as_slice()).as_slice())
    } else {
        string_of(hint.as_slice())
    }
}

/// Status and message that a push failure is reported with.
pub open spec fn push_classification(stderr: Seq<char>) -> (Seq<char>, Seq<char>) {
    classification_of(stderr, unicode_lowercase(stderr))
}

/// Status and message of a push failure from its error text and the lowercase
/// form of that text, in which the kinds are looked for.
pub open spec fn classification_of(stderr: Seq<char>, lower: Seq<char>) -> (Seq<char>, Seq<char>) {
    if is_rejected(lower) {
        ("rejected"@, "Push rejected: remote has new commits. Pull first, then push."@)
    } else if is_auth_error(lower) {
        ("auth_error"@, "Push failed: authentication error. Check your credentials."@)
    } else if is_network_error(lower) {
        ("network_error"@, "Push failed: network error. Check your connection and try again."@)
    } else if is_no_remote_error(lower) {
        ("no_remote"@, "No remote configured"@)
    } else {
        ("error"@, "Push failed: "@ + push_error_detail_spec(stderr))
    }
}

fn push_error(status: &str, message: String) -> (r: GitPushResult)
    ensures
        r.status@ == status@,
        r.message@ == message@,
{
    GitPushResult { status: string_from(status), message }
}

/// Tells a push failure's kind from Git's error text (matched case-insensitively).
pub fn classify_push_error(stderr: &str) -> (r: GitPushResult)
    ensures
        (r.status@, r.message@) == push_classification(stderr@),
{
    let lower = to_lowercase(stderr);
    classify_lowercased(stderr, lower.as_str())
}

/// Tells a push failure's kind from Git's error text and its lowercase form.
pub fn classify_lowercased(stderr: &str, lower: &str) -> (r: GitPushResult)
    ensures
        (r.status@, r.message@) == classification_of(stderr@, lower@),
{
    let lower = chars_of(lower);
    let l = lower.as_slice();
    if is_rejected_push_error(l) {
        return push_error(
            "rejected",
            string_from("Push rejected: remote has new commits. Pull first, then push."),
        );
    }
    if is_auth_push_error(l) {
        return push_error(
            "auth_error",
            string_from("Push failed: authentication error. Check your credentials."),
        );
    }
    if is_network_push_error(l) {
        return push_error(
            "network_error",
            string_from("Push failed: network error. Check your connection and try again."),
        );
    }
    if is_no_remote_push_error(l) {
        return push_error("no_remote", string_from("No remote configured"));
    }
    let detail = push_error_detail(stderr);
    push_error("error", prefixed("Push failed: ", detail.as_str()))
}

/// What `git push` came to, from its run or the error that kept it from starting.
pub fn git_push(ws: &GitWorkspace, outcome: Result<CommandOutput, String>) -> (r: Result<
    GitPushResult,
    String,
>)
    ensures
        match outcome {
            Err(e) => r matches Err(m) && m@ == "Failed to run git push: "@ + e@,
            Ok(o) => if o.success {
                r matches Ok(p) && p.status@ == "ok"@ && p.message@ == scope_message(
                    ws@.uses_parent(),
                    "Pushed to remote"@,
                )
            } else {
                r matches Ok(p) && (p.status@, p.message@) == push_classification(o.stderr@)
            },
        },
{
    match outcome {
        Err(e) => Err(prefixed("Failed to run git push: ", e.as_str())),
        Ok(o) => {
            if !o.success {
                return Ok(classify_push_error(o.stderr.as_str()));
            }
            Ok(
                GitPushResult {
                    status: string_from("ok"),
                    message: repository_scope_message(ws, "Pushed to remote"),
                },
            )
        },
    }
}

proof fn lemma_scoped_paths_from(pathspec: Seq<char>, files: Seq<Seq<char>>, i: int)
    requires
        0 <= i < scoped_paths(pathspec, files).len(),
    ensures
        exists|j: int|
            0 <= j < files.len() && vault_relative(pathspec, #[trigger] files[j]) == Some(
                scoped_paths(pathspec, files)[i],
            ),
    decreases files.len(),
{
    let init = files.drop_last();
    let rest = scoped_paths(pathspec, init);
    if i < rest.len() {
        lemma_scoped_paths_from(pathspec, init, i);
        let j = choose|j: int|
            0 <= j < init.len() && vault_relative(pathspec, #[trigger] init[j]) == Some(rest[i]);
        assert(files[j] == init[j]);
    } else {
        assert(files[files.len() - 1] == files.last());
    }
}

/// A pull reports as updated only vault files: each is the vault-relative form
/// of a path that the pull's diffstat lists.
pub proof fn law_pull_reports_only_vault_files(
    ws: WorkspaceView,
    succeeded: bool,
    stdout: Seq<char>,
    stderr: Seq<char>,
    conflicts: Seq<Seq<char>>,
    i: int,
)
    requires
        0 <= i < pull_report(ws, succeeded, stdout, stderr, conflicts).2.len(),
    ensures
        exists|j: int|
            0 <= j < updated_files(lines(stdout)).len() && vault_relative(
                ws.pathspec,
                #[trigger] updated_files(lines(stdout))[j],
            ) == Some(pull_report(ws, succeeded, stdout, stderr, conflicts).2[i]),
{
    lemma_scoped_paths_from(ws.pathspec, updated_files(lines(stdout)), i);
}

/// Each path is the vault-relative form of some repository path.
pub open spec fn all_vault_paths(pathspec: Seq<char>, paths: Seq<Seq<char>>) -> bool {
    forall|i: int|
        0 <= i < paths.len() ==> exists|q: Seq<char>| vault_relative(pathspec, q) == Some(
            #[trigger] paths[i],
        )
}

/// A finished pull is reported as `up_to_date`, `updated`, `conflict` or
/// `error` (`no_remote` is reported before any pull); it is a conflict exactly
/// when it lists conflicted files; it lists updated files only when it is
/// `updated`; and, given the vault's conflicted files as vault paths, every
/// path it lists is a vault path.
pub proof fn law_pull_report_shape(
    ws: WorkspaceView,
    succeeded: bool,
    stdout: Seq<char>,
    stderr: Seq<char>,
    conflicts: Seq<Seq<char>>,
)
    requires
        all_vault_paths(ws.pathspec, conflicts),
    ensures
        ({
            let r = pull_report(ws, succeeded, stdout, stderr, conflicts);
            &&& r.0 == "up_to_date"@ || r.0 == "updated"@ || r.0 == "conflict"@ || r.0 == "error"@
            &&& (r.0 == "conflict"@ <==> r.3.len() > 0)
            &&& (r.2.len() > 0 ==> r.0 == "updated"@)
            &&& all_vault_paths(ws.pathspec, r.2)
            &&& all_vault_paths(ws.pathspec, r.3)
        }),
{
    reveal_strlit("up_to_date");
    reveal_strlit("updated");
    reveal_strlit("conflict");
    reveal_strlit("error");
    assert("conflict"@.len() == 8 && "updated"@.len() == 7 && "error"@.len() == 5 && "up_to_date"@.len() == 10);
    let r = pull_report(ws, succeeded, stdout, stderr, conflicts);
    assert forall|i: int| 0 <= i < r.2.len() implies exists|q: Seq<char>| vault_relative(ws.pathspec, q) == Some(#[trigger] r.2[i]) by {
        lemma_scoped_paths_from(ws.pathspec, updated_files(lines(stdout)), i);
    }
}

/// `lower` contains at least one of `markers`.
pub open spec fn mentions_any(lower: Seq<char>, markers: Seq<Seq<char>>) -> bool {
    exists|i: int| 0 <= i < markers.len() && contains(lower, #[trigger] markers[i])
}

/// The texts by which Git says a push was refused for want of the remote's commits.
pub open spec fn rejection_markers() -> Seq<Seq<char>> {
    seq!["non-fast-forward"@, "[rejected]"@, "fetch first"@, "updates were rejected"@]
}

/// The texts by which Git says a push was refused for want of credentials.
pub open spec fn credential_markers() -> Seq<Seq<char>> {
    seq![
        "authentication failed"@,
        "could not read username"@,
        "permission denied"@,
        "403"@,
        "invalid credentials"@,
    ]
}

/// The texts by which Git says the remote could not be reached.
pub open spec fn network_markers() -> Seq<Seq<char>> {
    seq![
        "could not resolve host"@,
        "unable to access"@,
        "connection refused"@,
        "network is unreachable"@,
        "timed out"@,
    ]
}

/// The texts by which Git says there is no remote to push to.
pub open spec fn missing_remote_markers() -> Seq<Seq<char>> {
    seq![
        "no configured push destination"@,
        "does not appear to be a git repository"@,
        "no such remote"@,
        "no upstream branch"@,
    ]
}

proof fn lemma_marker(lower: Seq<char>, markers: Seq<Seq<char>>, i: int)
    requires
        0 <= i < markers.len(),
        !mentions_any(lower, markers),
    ensures
        !contains(lower, markers[i]),
{
}

proof fn lemma_not_rejected(lower: Seq<char>)
    requires
        !mentions_any(lower, rejection_markers()),
    ensures
        !is_rejected(lower),
{
    let m = rejection_markers();
    lemma_marker(lower, m, 0);
    lemma_marker(lower, m, 1);
    lemma_marker(lower, m, 2);
    lemma_marker(lower, m, 3);
}

proof fn lemma_not_auth(lower: Seq<char>)
    requires
        !mentions_any(lower, credential_markers()),
    ensures
        !is_auth_error(lower),
{
    let m = credential_markers();
    lemma_marker(lower, m, 0);
    lemma_marker(lower, m, 1);
    lemma_marker(lower, m, 2);
    lemma_marker(lower, m, 3);
    lemma_marker(lower, m, 4);
}

proof fn lemma_not_network(lower: Seq<char>)
    requires
        !mentions_any(lower, network_markers()),
    ensures
        !is_network_error(lower),
{
    let m = network_markers();
    lemma_marker(lower, m, 0);
    lemma_marker(lower, m, 1);
    lemma_marker(lower, m, 2);
    lemma_marker(lower, m, 3);
    lemma_marker(lower, m, 4);
}

/// A push refused because the remote has commits the vault lacks (its
/// lowercase error text names a rejection, a non-fast-forward update or a
/// fetch first) is reported as `rejected`, asking to pull first.
pub proof fn law_push_rejection(stderr: Seq<char>, lower: Seq<char>)
    requires
        contains(lower, "non-fast-forward"@) || contains(lower, "[rejected]"@) || contains(lower, "fetch first"@)
            || (contains(lower, "failed to push some refs"@) && contains(lower, "updates were rejected"@)),
    ensures
        classification_of(stderr, lower) == ("rejected"@, "Push rejected: remote has new commits. Pull first, then push."@),
{
}

/// A push refused for want of credentials, with no sign of a rejection, is
/// reported as an authentication error.
pub proof fn law_push_credentials(stderr: Seq<char>, lower: Seq<char>)
    requires
        !mentions_any(lower, rejection_markers()),
        mentions_any(lower, credential_markers()),
    ensures
        classification_of(stderr, lower) == ("auth_error"@, "Push failed: authentication error. Check your credentials."@),
{
    lemma_not_rejected(lower);
    let m = credential_markers();
    let i = choose|i: int| 0 <= i < m.len() && contains(lower, #[trigger] m[i]);
    assert(i == 0 || i == 1 || i == 2 || i == 3 || i == 4);
}

/// A push that could not reach the remote, with no sign of a rejection or of
/// missing credentials, is reported as a network error.
pub proof fn law_push_network(stderr: Seq<char>, lower: Seq<char>)
    requires
        !mentions_any(lower, rejection_markers()),
        !mentions_any(lower, credential_markers()),
        mentions_any(lower, network_markers()),
    ensures
        classification_of(stderr, lower) == ("network_error"@, "Push failed: network error. Check your connection and try again."@),
{
    lemma_not_rejected(lower);
    lemma_not_auth(lower);
    let m = network_markers();
    let i = choose|i: int| 0 <= i < m.len() && contains(lower, #[trigger] m[i]);
    assert(i == 0 || i == 1 || i == 2 || i == 3 || i == 4);
}

/// A push with no remote to go to (no push destination, no such remote, no
/// upstream branch, or a remote that is no repository), and no sign of a
/// rejection, missing credentials or an unreachable network, is reported as
/// `no_remote`.
pub proof fn law_push_without_remote(stderr: Seq<char>, lower: Seq<char>)
    requires
        !mentions_any(lower, rejection_markers()),
        !mentions_any(lower, credential_markers()),
        !mentions_any(lower, network_markers()),
        mentions_any(lower, missing_remote_markers()),
    ensures
        classification_of(stderr, lower) == ("no_remote"@, "No remote configured"@),
{
    lemma_not_rejected(lower);
    lemma_not_auth(lower);
    lemma_not_network(lower);
    let m = missing_remote_markers();
    let i = choose|i: int| 0 <= i < m.len() && contains(lower, #[trigger] m[i]);
    assert(i == 0 || i == 1 || i == 2 || i == 3);
}

/// Any other push failure is reported as `error`, with a message that starts
/// with "Push failed: ".
pub proof fn law_push_other_failure(stderr: Seq<char>, lower: Seq<char>)
    requires
        !mentions_any(lower, rejection_markers()),
        !mentions_any(lower, credential_markers()),
        !mentions_any(lower, network_markers()),
        !mentions_any(lower, missing_remote_markers()),
    ensures
        classification_of(stderr, lower).0 == "error"@,
        starts_with(classification_of(stderr, lower).1, "Push failed: "@),
{
    lemma_not_rejected(lower);
    lemma_not_auth(lower);
    lemma_not_network(lower);
    let m = missing_remote_markers();
    lemma_marker(lower, m, 0);
    lemma_marker(lower, m, 1);
    lemma_marker(lower, m, 2);
    lemma_marker(lower, m, 3);
    let msg = classification_of(stderr, lower).1;
    assert(msg.subrange(0, "Push failed: "@.len() as int) =~= "Push failed: "@);
}

/// A failed pull that left no conflicted file is reported as `error` with Git's
/// error output, trimmed, whenever that output is not blank; only a blank one
/// gives way to the trimmed standard output.
pub proof fn law_failed_pull_reports_git_error(
    ws: WorkspaceView,
    stdout: Seq<char>,
    stderr: Seq<char>,
)
    ensures
        pull_report(ws, false, stdout, stderr, seq![]).0 == "error"@,
        trim(stderr).len() > 0 ==> pull_report(ws, false, stdout, stderr, seq![]).1 == trim(stderr),
        trim(stderr).len() == 0 ==> pull_report(ws, false, stdout, stderr, seq![]).1 == trim(stdout),
        pull_report(ws, false, stdout, stderr, seq![]).2.len() == 0,
        pull_report(ws, false, stdout, stderr, seq![]).3.len() == 0,
{
}

/// An upstream `<remote>/<branch>` names the remote before its first `/` and
/// the branch after it (a branch may hold `/` itself).
pub proof fn law_upstream_fields(remote: Seq<char>, branch: Seq<char>)
    requires
        remote.len() > 0,
        !remote.contains('/'),
        !crate::text::is_whitespace(remote[0]),
        branch.len() > 0,
        !crate::text::is_whitespace(branch.last()),
    ensures
        sync_target_of(remote + seq!['/'] + branch) == Some((remote, branch)),
{
    let t = remote + seq!['/'] + branch;
    assert(t[0] == remote[0]);
    assert(t.last() == branch.last());
    crate::text::lemma_trim_fixed(t);
    assert forall|k: int| 0 <= k < t.len() && k < remote.len() implies t[k] != '/' by {
        assert(t[k] == remote[k]);
    }
    crate::text::lemma_find_char_is(t, '/', remote.len() as int);
    assert(t.subrange(0, remote.len() as int) =~= remote);
    assert(t.subrange(remote.len() + 1int, t.len() as int) =~= branch);
}

/// A successful pull whose output says it is already up to date is reported
/// as `up_to_date` with no files; any other successful pull as `updated`, with
/// the vault files of its diffstat and their number in the message. Either
/// message starts with "Parent repository: " exactly when the vault is nested.
/// A failed pull that left conflicted files reports them and their number.
pub proof fn law_pull_outcomes(
    ws: WorkspaceView,
    stdout: Seq<char>,
    stderr: Seq<char>,
    conflicts: Seq<Seq<char>>,
)
    ensures
        ({
            let r = pull_report(ws, true, stdout, stderr, conflicts);
            let prefix = if ws.pathspec.len() > 0 {
                "Parent repository: "@
            } else {
                seq![]
            };
            &&& (contains(stdout, "Already up to date"@) || contains(stdout, "Already up-to-date"@))
                ==> r == ("up_to_date"@, prefix + "Already up to date"@, Seq::<Seq<char>>::empty(), Seq::<Seq<char>>::empty())
            &&& !(contains(stdout, "Already up to date"@) || contains(stdout, "Already up-to-date"@))
                ==> {
                &&& r.0 == "updated"@
                &&& r.2 == scoped_paths(ws.pathspec, updated_files(lines(stdout)))
                &&& r.1 == prefix + decimal(r.2.len()) + " vault file(s) updated"@
                &&& r.3.len() == 0
            }
        }),
        conflicts.len() > 0 ==> pull_report(ws, false, stdout, stderr, conflicts) == (
            "conflict"@,
            "Merge conflict in "@ + decimal(conflicts.len()) + " file(s)"@,
            Seq::<Seq<char>>::empty(),
            conflicts,
        ),
{
    assert(seq![] + "Already up to date"@ =~= "Already up to date"@);
    let n = scoped_paths(ws.pathspec, updated_files(lines(stdout))).len();
    assert(seq![] + decimal(n) + " vault file(s) updated"@ =~= decimal(n) + " vault file(s) updated"@);
    assert(("Parent repository: "@ + (decimal(n) + " vault file(s) updated"@)) =~= "Parent repository: "@ + decimal(n) + " vault file(s) updated"@);
}

} // verus!
