//! Merge and rebase conflicts: which vault files are unmerged, how one is
//! resolved, which operation is in progress and how it is concluded.
use vstd::prelude::*;
use crate::command::{CommandOutput, texts, push_arg, push_lit, stderr_or_stdout};
use crate::text::{
    chars_of, string_of, string_from, prefixed, seq_eq, split, lines_of, lines, split_char, trim,
    starts_with, views, lex_lt, lex_less, lemma_lex_irreflexive, lemma_lex_trichotomy,
    lemma_lex_asymmetric, lemma_lex_transitive, decimal, decimal_string, push_all,
};
use crate::workspace::{GitWorkspace, vault_relative, repo_relative};
use crate::status::joined_path;
use crate::remote::all_vault_paths;

verus! {

/// Which side of a conflict is kept.
#[derive(Clone, Copy, PartialEq, Eq, Structural)]
pub enum ConflictStrategy {
    Ours,
    Theirs,
}

impl ConflictStrategy {
    /// The `git checkout` flag that takes this side.
    pub fn checkout_flag(self) -> (r: String)
        ensures
            r@ == (match self {
                ConflictStrategy::Ours => "--ours"@,
                ConflictStrategy::Theirs => "--theirs"@,
            }),
    {
        match self {
            ConflictStrategy::Ours => string_from("--ours"),
            ConflictStrategy::Theirs => string_from("--theirs"),
        }
    }
}

/// A file under the Git directory that marks an operation in progress.
#[derive(Clone, Copy, PartialEq, Eq, Structural)]
pub enum GitStatePath {
    MergeHead,
    RebaseApply,
    RebaseMerge,
}

impl GitStatePath {
    pub open spec fn name(self) -> Seq<char> {
        match self {
            GitStatePath::MergeHead => "MERGE_HEAD"@,
            GitStatePath::RebaseApply => "rebase-apply"@,
            GitStatePath::RebaseMerge => "rebase-merge"@,
        }
    }

    /// Its name under the Git directory.
    pub fn as_str(self) -> (r: String)
        ensures
            r@ == self.name(),
    {
        match self {
            GitStatePath::MergeHead => string_from("MERGE_HEAD"),
            GitStatePath::RebaseApply => string_from("rebase-apply"),
            GitStatePath::RebaseMerge => string_from("rebase-merge"),
        }
    }
}

/// The message for a strategy other than `ours` or `theirs`.
pub open spec fn invalid_strategy_message(strategy: Seq<char>) -> Seq<char> {
    "Invalid strategy '"@ + strategy + "': must be 'ours' or 'theirs'"@
}

/// Reads a strategy name.
pub fn parse_conflict_strategy(strategy: &str) -> (r: Result<ConflictStrategy, String>)
    ensures
        strategy@ == "ours"@ ==> r == Ok::<ConflictStrategy, String>(ConflictStrategy::Ours),
        strategy@ == "theirs"@ ==> r == Ok::<ConflictStrategy, String>(ConflictStrategy::Theirs),
        strategy@ != "ours"@ && strategy@ != "theirs"@ ==> (r matches Err(e) && e@
            == invalid_strategy_message(strategy@)),
{
    proof {
        reveal_strlit("ours");
        reveal_strlit("theirs");
        assert("ours"@.len() == 4);
        assert("theirs"@.len() == 6);
        assert("ours"@ != "theirs"@);
    }
    let s = chars_of(strategy);
    let ours = chars_of("ours");
    let theirs = chars_of("theirs");
    if seq_eq(s.as_slice(), ours.as_slice()) {
        Ok(ConflictStrategy::Ours)
    } else if seq_eq(s.as_slice(), theirs.as_slice()) {
        Ok(ConflictStrategy::Theirs)
    } else {
        let mut m = chars_of("Invalid strategy '");
        push_all(&mut m, s.as_slice());
        push_all(&mut m, chars_of("': must be 'ours' or 'theirs'").as_slice());
        Err(string_of(m.as_slice()))
    }
}

/// The two commands that resolve a conflicted file: check out the chosen side,
/// then stage the file.
pub struct ResolveCommands {
    pub checkout: Vec<String>,
    pub add: Vec<String>,
}

/// The commands resolving `file` (vault-relative) with `strategy`, or the
/// error for an unknown strategy.
pub fn git_resolve_conflict(ws: &GitWorkspace, file: &str, strategy: &str) -> (r: Result<
    ResolveCommands,
    String,
>)
    ensures
        strategy@ != "ours"@ && strategy@ != "theirs"@ ==> (r matches Err(e) && e@
            == invalid_strategy_message(strategy@)),
        strategy@ == "ours"@ || strategy@ == "theirs"@ ==> (r matches Ok(c) && texts(c.checkout@)
            == seq![
            "checkout"@,
            (if strategy@ == "ours"@ {
                "--ours"@
            } else {
                "--theirs"@
            }),
            "--"@,
            repo_relative(ws@.pathspec, file@),
        ] && texts(c.add@) == seq!["add"@, "--"@, repo_relative(ws@.pathspec, file@)]),
{
    let repo_file = ws.repo_relative_path(file);
    let chosen = parse_conflict_strategy(strategy)?;
    let mut checkout: Vec<String> = Vec::new();
    push_lit(&mut checkout, "checkout");
    push_arg(&mut checkout, chosen.checkout_flag());
    push_lit(&mut checkout, "--");
    push_arg(&mut checkout, string_from(repo_file.as_str()));
    let mut add: Vec<String> = Vec::new();
    push_lit(&mut add, "add");
    push_lit(&mut add, "--");
    push_arg(&mut add, repo_file);
    proof {
        reveal_strlit("ours");
        reveal_strlit("theirs");
    }
    Ok(ResolveCommands { checkout, add })
}

/// The path that a line of `git ls-files --unmerged` names (its second
/// tab-separated piece), as a vault-relative path; `None` when it has no tab or
/// lies outside the vault.
pub open spec fn unmerged_path(pathspec: Seq<char>, line: Seq<char>) -> Option<Seq<char>> {
    let parts = split_char(line, '\t');
    if parts.len() >= 2 {
        vault_relative(pathspec, parts[1])
    } else {
        None
    }
}

/// The vault paths named by the listing's lines, in order, repeats included.
pub open spec fn unmerged_candidates(pathspec: Seq<char>, ls: Seq<Seq<char>>) -> Seq<Seq<char>>
    decreases ls.len(),
{
    if ls.len() == 0 {
        seq![]
    } else {
        let prev = unmerged_candidates(pathspec, ls.drop_last());
        match unmerged_path(pathspec, ls.last()) {
            Some(p) => prev.push(p),
            None => prev,
        }
    }
}

/// Each element sorts strictly before every later one: sorted, no repeats.
pub open spec fn strictly_sorted(s: Seq<Seq<char>>) -> bool {
    forall|i: int, j: int| 0 <= i < j < s.len() ==> lex_lt(#[trigger] s[i], #[trigger] s[j])
}

proof fn lemma_views_insert(v: Seq<Vec<char>>, k: int, x: Vec<char>)
    requires
        0 <= k <= v.len(),
    ensures
        views(v.insert(k, x)) == views(v).insert(k, x@),
{
    assert(views(v.insert(k, x)) =~= views(v).insert(k, x@));
}

/// Adds `c` to a strictly sorted list unless it is already there.
fn insert_sorted(r: &mut Vec<Vec<char>>, c: Vec<char>)
    requires
        strictly_sorted(views(old(r)@)),
    ensures
        strictly_sorted(views(final(r)@)),
        views(final(r)@).to_set() == views(old(r)@).to_set().insert(c@),
{
    let ghost s = views(r@);
    let mut k: usize = 0;
    while k < r.len() && lex_less(r[k].as_slice(), c.as_slice())
        invariant
            k <= r@.len(),
            s == views(r@),
            forall|i: int| 0 <= i < k ==> lex_lt(#[trigger] s[i], c@),
        decreases r@.len() - k,
    {
        k += 1;
    }
    if k < r.len() && seq_eq(r[k].as_slice(), c.as_slice()) {
        assert(s[k as int] == c@);
        assert(s.to_set().insert(c@) =~= s.to_set());
        return;
    }
    proof {
        if k < s.len() {
            lemma_lex_trichotomy(s[k as int], c@);
            assert(lex_lt(c@, s[k as int]));
        }
    }
    proof {
        lemma_views_insert(r@, k as int, c);
    }
    let ghost t = s.insert(k as int, c@);
    assert forall|i: int, j: int| 0 <= i < j < t.len() implies lex_lt(#[trigger] t[i], #[trigger] t[j]) by {
        if j < k {
            assert(t[i] == s[i] && t[j] == s[j]);
        } else if j == k {
            assert(t[i] == s[i] && t[j] == c@);
        } else if i < k {
            assert(t[i] == s[i] && t[j] == s[j - 1]);
            lemma_lex_trichotomy(s[k as int], c@);
            if k < j - 1 {
                lemma_lex_transitive(c@, s[k as int], s[j - 1]);
            }
            lemma_lex_transitive(s[i], c@, s[j - 1]);
        } else if i == k {
            assert(t[i] == c@ && t[j] == s[j - 1]);
            if k < j - 1 {
                lemma_lex_transitive(c@, s[k as int], s[j - 1]);
            }
        } else {
            assert(t[i] == s[i - 1] && t[j] == s[j - 1]);
        }
    }
    r.insert(k, c);
    proof {
        assert(views(r@) == t);
        assert(t.to_set() =~= s.to_set().insert(c@)) by {
            assert forall|x: Seq<char>| t.contains(x) implies s.to_set().insert(c@).contains(x) by {
                let i = choose|i: int| 0 <= i < t.len() && t[i] == x;
                if i < k {
                    assert(s[i] == x);
                } else if i > k {
                    assert(s[i - 1] == x);
                }
            }
            assert forall|x: Seq<char>| s.to_set().insert(c@).contains(x) implies t.contains(x) by {
                if x == c@ {
                    assert(t[k as int] == x);
                } else {
                    let i = choose|i: int| 0 <= i < s.len() && s[i] == x;
                    if i < k {
                        assert(t[i] == x);
                    } else {
                        assert(t[i + 1] == x);
                    }
                }
            }
        }
    }
}

/// Arguments that list the vault's unmerged index entries.
pub fn conflict_files_args(ws: &GitWorkspace) -> (r: Vec<String>)
    ensures
        texts(r@) == seq!["ls-files"@, "--unmerged"@, "--"@, ws@.pathspec_arg()],
{
    let mut r: Vec<String> = Vec::new();
    push_lit(&mut r, "ls-files");
    push_lit(&mut r, "--unmerged");
    push_lit(&mut r, "--");
    push_arg(&mut r, ws.vault_pathspec());
    r
}

/// The vault files that a listing of unmerged entries names: each once, sorted.
pub fn unmerged_files(ws: &GitWorkspace, stdout: &str) -> (r: Vec<String>)
    ensures
        strictly_sorted(texts(r@)),
        texts(r@).to_set() == unmerged_candidates(ws@.pathspec, lines(stdout@)).to_set(),
{
    let text = chars_of(stdout);
    let ls = lines_of(text.as_slice());
    let ghost lv = lines(stdout@);
    let mut found: Vec<Vec<char>> = Vec::new();
    for i in 0..ls.len()
        invariant
            views(ls@) == lv,
            strictly_sorted(views(found@)),
            views(found@).to_set() == unmerged_candidates(ws@.pathspec, lv.take(i as int)).to_set(),
    {
        proof {
            assert(lv.take(i + 1).drop_last() =~= lv.take(i as int));
            assert(lv.take(i + 1).last() == ls@[i as int]@);
        }
        let ghost prev = unmerged_candidates(ws@.pathspec, lv.take(i as int));
        let parts = split(ls[i].as_slice(), '\t');
        if parts.len() >= 2 {
            assert(views(parts@)[1] == parts@[1]@);
            match ws.vault_relative_chars(parts[1].as_slice()) {
                Some(p) => {
                    insert_sorted(&mut found, p);
                    proof {
                        assert(unmerged_candidates(ws@.pathspec, lv.take(i + 1)) == prev.push(p@));
                        prev.lemma_push_to_set_commute(p@);
                    }
                },
                None => {
                    assert(unmerged_candidates(ws@.pathspec, lv.take(i + 1)) == prev);
                },
            }
        } else {
            assert(unmerged_candidates(ws@.pathspec, lv.take(i + 1)) == prev);
        }
    }
    proof {
        assert(lv.take(ls@.len() as int) =~= lv);
    }
    let mut out: Vec<String> = Vec::new();
    for i in 0..found.len()
        invariant
            texts(out@) == views(found@).take(i as int),
    {
        let s = string_of(found[i].as_slice());
        proof {
            crate::command::lemma_texts_push(out@, s);
            assert(views(found@).take(i + 1) =~= views(found@).take(i as int).push(s@));
        }
        out.push(s);
    }
    proof {
        assert(views(found@).take(found@.len() as int) =~= views(found@));
    }
    out
}

/// The vault's conflicted files from `git ls-files --unmerged`, or the error
/// when the command could not be run.
pub fn get_conflict_files(ws: &GitWorkspace, outcome: Result<CommandOutput, String>) -> (r: Result<
    Vec<String>,
    String,
>)
    ensures
        match outcome {
            Err(e) => r matches Err(m) && m@ == "Failed to check conflicts: "@ + e@,
            Ok(o) => r matches Ok(v) && strictly_sorted(texts(v@)) && texts(v@).to_set()
                == unmerged_candidates(ws@.pathspec, lines(o.stdout@)).to_set(),
        },
{
    match outcome {
        Err(e) => Err(prefixed("Failed to check conflicts: ", e.as_str())),
        Ok(o) => Ok(unmerged_files(ws, o.stdout.as_str())),
    }
}

/// Arguments that ask Git where one of its state files lies.
pub fn state_path_args(state: GitStatePath) -> (r: Vec<String>)
    ensures
        texts(r@) == seq!["rev-parse"@, "--git-path"@, state.name()],
{
    let mut r: Vec<String> = Vec::new();
    push_lit(&mut r, "rev-parse");
    push_lit(&mut r, "--git-path");
    push_arg(&mut r, state.as_str());
    r
}

/// Where a state file lies: Git's answer, taken relative to the work-tree root
/// unless it is absolute.
pub open spec fn state_path_of(git_root: Seq<char>, answer: Seq<char>) -> Seq<char> {
    let p = trim(answer);
    if starts_with(p, "/"@) {
        p
    } else {
        joined_path(git_root, p)
    }
}

/// The location of a state file from `git rev-parse --git-path`, or the error.
pub fn git_state_path(git_root: &str, outcome: Result<CommandOutput, String>) -> (r: Result<
    String,
    String,
>)
    ensures
        match outcome {
            Err(e) => r matches Err(m) && m@ == "Failed to resolve Git state path: "@ + e@,
            Ok(o) => if o.success {
                r matches Ok(p) && p@ == state_path_of(git_root@, o.stdout@)
            } else {
                r matches Err(m) && m@ == "Git state path resolution failed"@
            },
        },
{
    match outcome {
        Err(e) => Err(prefixed("Failed to resolve Git state path: ", e.as_str())),
        Ok(o) => {
            if !o.success {
                return Err(string_from("Git state path resolution failed"));
            }
            let p = crate::text::trim_string(o.stdout.as_str());
            let pv = chars_of(p.as_str());
            let slash = chars_of("/");
            if crate::text::has_prefix(pv.as_slice(), slash.as_slice()) {
                Ok(p)
            } else {
                Ok(crate::status::join_path(git_root, p.as_str()))
            }
        },
    }
}

/// Whether a state file was found: a path that could not be resolved counts
/// as absent.
pub open spec fn found(check: Result<bool, String>) -> bool {
    check matches Ok(b) && b
}

/// Whether a rebase is in progress, from the existence checks of
/// `rebase-merge` and `rebase-apply`.
pub fn is_rebase_in_progress(rebase_merge: Result<bool, String>, rebase_apply: Result<bool, String>) -> (r: bool)
    ensures
        r == (found(rebase_merge) || found(rebase_apply)),
{
    let a = match rebase_merge {
        Ok(b) => b,
        Err(_) => false,
    };
    let b = match rebase_apply {
        Ok(b) => b,
        Err(_) => false,
    };
    a || b
}

/// Whether a merge is in progress, from the existence check of `MERGE_HEAD`.
pub fn is_merge_in_progress(merge_head: Result<bool, String>) -> (r: bool)
    ensures
        r == found(merge_head),
{
    match merge_head {
        Ok(b) => b,
        Err(_) => false,
    }
}

/// The conflict mode: `rebase` before `merge`, else `none`.
pub open spec fn conflict_mode(rebase: bool, merge: bool) -> Seq<char> {
    if rebase {
        "rebase"@
    } else if merge {
        "merge"@
    } else {
        "none"@
    }
}

pub fn get_conflict_mode(rebase: bool, merge: bool) -> (r: String)
    ensures
        r@ == conflict_mode(rebase, merge),
{
    if rebase {
        string_from("rebase")
    } else if merge {
        string_from("merge")
    } else {
        string_from("none")
    }
}

/// The refusal to conclude while `n` files are still conflicted.
pub open spec fn unresolved_message(n: nat) -> Seq<char> {
    "Cannot commit: "@ + decimal(n) + " file(s) still have unresolved conflicts"@
}

/// Concluding is allowed only once no conflicted file remains.
pub fn check_no_remaining_conflicts(remaining: &Vec<String>) -> (r: Result<(), String>)
    ensures
        remaining@.len() == 0 ==> r is Ok,
        remaining@.len() > 0 ==> (r matches Err(e) && e@ == unresolved_message(
            remaining@.len(),
        )),
{
    if remaining.len() == 0 {
        return Ok(());
    }
    let n = remaining.len() as u64;
    let mut m = chars_of("Cannot commit: ");
    push_all(&mut m, chars_of(decimal_string(n).as_str()).as_slice());
    push_all(&mut m, chars_of(" file(s) still have unresolved conflicts").as_slice());
    Err(string_of(m.as_slice()))
}

/// The command that concludes a resolved operation: `git rebase --continue`
/// with a non-interactive editor for a rebase, else a merge commit.
pub struct ResolutionCommand {
    pub args: Vec<String>,
    /// The command runs with `GIT_EDITOR=true`.
    pub sets_editor: bool,
}

pub fn resolution_command(mode: &str) -> (r: ResolutionCommand)
    ensures
        mode@ == "rebase"@ ==> texts(r.args@) == seq!["rebase"@, "--continue"@] && r.sets_editor,
        mode@ != "rebase"@ ==> texts(r.args@) == seq!["commit"@, "-m"@, "Resolve merge conflicts"@]
            && !r.sets_editor,
{
    let mut args: Vec<String> = Vec::new();
    if seq_eq(chars_of(mode).as_slice(), chars_of("rebase").as_slice()) {
        push_lit(&mut args, "rebase");
        push_lit(&mut args, "--continue");
        ResolutionCommand { args, sets_editor: true }
    } else {
        push_lit(&mut args, "commit");
        push_lit(&mut args, "-m");
        push_lit(&mut args, "Resolve merge conflicts");
        ResolutionCommand { args, sets_editor: false }
    }
}

/// The name by which the concluding command is reported.
pub open spec fn resolution_name(mode: Seq<char>) -> Seq<char> {
    if mode == "rebase"@ {
        "git rebase --continue"@
    } else {
        "git commit"@
    }
}

/// What concluding the operation came to: the command's output, or the error.
pub fn git_commit_conflict_resolution(mode: &str, outcome: Result<CommandOutput, String>) -> (r:
    Result<String, String>)
    ensures
        match outcome {
            Err(e) => r matches Err(m) && m@ == "Failed to run "@ + resolution_name(mode@) + ": "@
                + e@,
            Ok(o) => if o.success {
                r matches Ok(s) && s@ == o.stdout@
            } else {
                r matches Err(m) && m@ == resolution_name(mode@) + " failed: "@ + trim(
                    stderr_or_stdout(o.stdout@, o.stderr@),
                )
            },
        },
{
    let name = if seq_eq(chars_of(mode).as_slice(), chars_of("rebase").as_slice()) {
        chars_of("git rebase --continue")
    } else {
        chars_of("git commit")
    };
    match outcome {
        Err(e) => {
            let mut m = chars_of("Failed to run ");
            push_all(&mut m, name.as_slice());
            push_all(&mut m, chars_of(": ").as_slice());
            push_all(&mut m, chars_of(e.as_str()).as_slice());
            Err(string_of(m.as_slice()))
        },
        Ok(o) => {
            if o.success {
                return Ok(o.stdout);
            }
            let err = crate::text::trim_string(o.stderr.as_str());
            let detail = if err.as_str().is_empty() {
                crate::text::trim_string(o.stdout.as_str())
            } else {
                err
            };
            let mut m = name;
            push_all(&mut m, chars_of(" failed: ").as_slice());
            push_all(&mut m, chars_of(detail.as_str()).as_slice());
            Err(string_of(m.as_slice()))
        },
    }
}

proof fn lemma_sorted_first_is_least(a: Seq<Seq<char>>, x: Seq<char>)
    requires
        strictly_sorted(a),
        a.contains(x),
    ensures
        a[0] == x || lex_lt(a[0], x),
{
    let k = choose|k: int| 0 <= k < a.len() && a[k] == x;
    if k > 0 {
        assert(lex_lt(a[0], a[k]));
    }
}

/// Two strictly sorted lists holding the same set of paths are the same list:
/// the conflict listing is determined by the set of conflicted paths.
pub proof fn lemma_sorted_set_unique(a: Seq<Seq<char>>, b: Seq<Seq<char>>)
    requires
        strictly_sorted(a),
        strictly_sorted(b),
        a.to_set() == b.to_set(),
    ensures
        a == b,
    decreases a.len(),
{
    if a.len() == 0 {
        if b.len() > 0 {
            assert(b.to_set().contains(b[0]));
        }
        assert(a =~= b);
    } else if b.len() == 0 {
        assert(a.to_set().contains(a[0]));
    } else {
        assert(a.to_set().contains(a[0]));
        assert(b.to_set().contains(b[0]));
        lemma_sorted_first_is_least(a, b[0]);
        lemma_sorted_first_is_least(b, a[0]);
        if a[0] != b[0] {
            lemma_lex_asymmetric(a[0], b[0]);
        }
        let a1 = a.drop_first();
        let b1 = b.drop_first();
        assert(strictly_sorted(a1)) by {
            assert forall|i: int, j: int| 0 <= i < j < a1.len() implies lex_lt(#[trigger] a1[i], #[trigger] a1[j]) by {
                assert(a1[i] == a[i + 1] && a1[j] == a[j + 1]);
            }
        }
        assert(strictly_sorted(b1)) by {
            assert forall|i: int, j: int| 0 <= i < j < b1.len() implies lex_lt(#[trigger] b1[i], #[trigger] b1[j]) by {
                assert(b1[i] == b[i + 1] && b1[j] == b[j + 1]);
            }
        }
        assert(a1.to_set() =~= b1.to_set()) by {
            assert forall|x: Seq<char>| a1.to_set().contains(x) implies b1.to_set().contains(x) by {
                let i = choose|i: int| 0 <= i < a1.len() && a1[i] == x;
                assert(a[i + 1] == x);
                assert(lex_lt(a[0], a[i + 1]));
                assert(a.to_set().contains(x));
                let j = choose|j: int| 0 <= j < b.len() && b[j] == x;
                if j == 0 {
                    lemma_lex_irreflexive(x);
                }
                assert(b1[j - 1] == x);
            }
            assert forall|x: Seq<char>| b1.to_set().contains(x) implies a1.to_set().contains(x) by {
                let i = choose|i: int| 0 <= i < b1.len() && b1[i] == x;
                assert(b[i + 1] == x);
                assert(lex_lt(b[0], b[i + 1]));
                assert(b.to_set().contains(x));
                let j = choose|j: int| 0 <= j < a.len() && a[j] == x;
                if j == 0 {
                    lemma_lex_irreflexive(x);
                }
                assert(a1[j - 1] == x);
            }
        }
        lemma_sorted_set_unique(a1, b1);
        assert(a =~= b) by {
            assert forall|i: int| 0 <= i < a.len() implies a[i] == b[i] by {
                if i > 0 {
                    assert(a[i] == a1[i - 1] && b[i] == b1[i - 1]);
                }
            }
        }
    }
}

proof fn lemma_candidates_are_vault_paths(pathspec: Seq<char>, ls: Seq<Seq<char>>)
    ensures
        all_vault_paths(pathspec, unmerged_candidates(pathspec, ls)),
    decreases ls.len(),
{
    if ls.len() > 0 {
        lemma_candidates_are_vault_paths(pathspec, ls.drop_last());
        let prev = unmerged_candidates(pathspec, ls.drop_last());
        let c = unmerged_candidates(pathspec, ls);
        assert forall|i: int| 0 <= i < c.len() implies exists|q: Seq<char>| vault_relative(pathspec, q) == Some(#[trigger] c[i]) by {
            if i < prev.len() {
                assert(c[i] == prev[i]);
                assert(exists|q: Seq<char>| vault_relative(pathspec, q) == Some(prev[i]));
            } else {
                let parts = split_char(ls.last(), '\t');
                assert(vault_relative(pathspec, parts[1]) == Some(c[i]));
            }
        }
    }
}

/// Every conflicted file listed for a vault is a vault path: some repository
/// path of the listing maps to it in the vault.
pub proof fn law_conflict_files_are_vault_paths(pathspec: Seq<char>, ls: Seq<Seq<char>>, files: Seq<Seq<char>>)
    requires
        files.to_set() == unmerged_candidates(pathspec, ls).to_set(),
    ensures
        all_vault_paths(pathspec, files),
{
    lemma_candidates_are_vault_paths(pathspec, ls);
    let c = unmerged_candidates(pathspec, ls);
    assert forall|i: int| 0 <= i < files.len() implies exists|q: Seq<char>| vault_relative(pathspec, q) == Some(#[trigger] files[i]) by {
        assert(files.to_set().contains(files[i]));
        assert(c.to_set().contains(files[i]));
        let k = choose|k: int| 0 <= k < c.len() && c[k] == files[i];
        assert(exists|q: Seq<char>| vault_relative(pathspec, q) == Some(c[k]));
    }
}

/// A rebase in progress decides the mode whether or not a merge is also in
/// progress; a merge alone gives `merge`; neither gives `none`.
pub proof fn law_conflict_mode(rebase: bool, merge: bool)
    ensures
        rebase ==> conflict_mode(rebase, merge) == "rebase"@,
        !rebase && merge ==> conflict_mode(rebase, merge) == "merge"@,
        !rebase && !merge ==> conflict_mode(rebase, merge) == "none"@,
{
}

/// A line of `git ls-files --unmerged`, `<mode> <object> <stage>\t<path>`,
/// names the path after its tab, read relative to the vault.
pub proof fn law_unmerged_line_names_its_path(pathspec: Seq<char>, info: Seq<char>, path: Seq<char>)
    requires
        !info.contains('\t'),
        !path.contains('\t'),
    ensures
        unmerged_path(pathspec, info + seq!['\t'] + path) == vault_relative(pathspec, path),
{
    crate::text::lemma_split_field(info, path, '\t');
    crate::text::lemma_split_whole(path, '\t');
    assert(split_char(info + seq!['\t'] + path, '\t') =~= seq![info, path]);
}

/// A failed `git rebase --continue` or merge commit is reported under the
/// command's name with Git's error output, trimmed, whenever it is not blank,
/// else with the trimmed standard output.
pub proof fn law_failed_resolution_reports_git_error(mode: Seq<char>, stdout: Seq<char>, stderr: Seq<char>)
    ensures
        trim(stderr).len() > 0 ==> resolution_name(mode) + " failed: "@ + trim(stderr_or_stdout(stdout, stderr))
            == resolution_name(mode) + " failed: "@ + trim(stderr),
        trim(stderr).len() == 0 ==> resolution_name(mode) + " failed: "@ + trim(stderr_or_stdout(stdout, stderr))
            == resolution_name(mode) + " failed: "@ + trim(stdout),
        mode == "rebase"@ ==> resolution_name(mode) == "git rebase --continue"@,
        mode != "rebase"@ ==> resolution_name(mode) == "git commit"@,
{
}

} // verus!
