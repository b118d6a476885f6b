//! A note's history: the commits that touched it and its diffs, in the working
//! tree or at a commit.
use vstd::prelude::*;
use crate::command::{push_arg, push_lit, texts, CommandOutput};
use crate::dates::{commit_timestamp, date_or_zero, rfc3339_timestamp};
use crate::text::{
    chars_of, contains, contains_lit, decimal, decimal_string, join, join_chars, lines, lines_of,
    prefixed, push_all, splitn, splitn_char, starts_with, has_prefix, string_from, string_of,
    views, lemma_views_push,
};
use crate::workspace::{repo_relative, GitWorkspace};
use crate::file_url::{vault_relative_path_string, vault_relative_path_string_of};

verus! {

/// A commit in a note's history.
pub struct GitCommit {
    pub hash: String,
    pub short_hash: String,
    pub author: String,
    pub date: i64,
    pub message: String,
}

pub struct GitCommitView {
    pub hash: Seq<char>,
    pub short_hash: Seq<char>,
    pub author: Seq<char>,
    pub date: i64,
    pub message: Seq<char>,
}

impl View for GitCommit {
    type V = GitCommitView;

    open spec fn view(&self) -> GitCommitView {
        GitCommitView {
            hash: self.hash@,
            short_hash: self.short_hash@,
            author: self.author@,
            date: self.date,
            message: self.message@,
        }
    }
}

pub open spec fn commits_view(v: Seq<GitCommit>) -> Seq<GitCommitView> {
    Seq::new(v.len(), |i: int| v[i]@)
}

/// The repository-relative path of a note given by its path (absolute, or
/// relative to the vault), or the error for a file outside the vault.
pub open spec fn note_git_path(vault_root: Seq<char>, pathspec: Seq<char>, file: Seq<char>) -> Result<
    Seq<char>,
    Seq<char>,
> {
    match vault_relative_path_string(vault_root, file) {
        Ok(v) => Ok(repo_relative(pathspec, v)),
        Err(e) => Err(e),
    }
}

pub fn note_path_in_repository(ws: &GitWorkspace, file: &str) -> (r: Result<String, String>)
    ensures
        match r {
            Ok(p) => note_git_path(ws@.vault_root, ws@.pathspec, file@) == Ok::<
                Seq<char>,
                Seq<char>,
            >(p@),
            Err(e) => note_git_path(ws@.vault_root, ws@.pathspec, file@) == Err::<
                Seq<char>,
                Seq<char>,
            >(e@),
        },
{
    let root = ws.vault_root();
    match vault_relative_path_string_of(root.as_str(), file) {
        Ok(v) => Ok(ws.repo_relative_path(v.as_str())),
        Err(e) => Err(e),
    }
}

/// The log format of the history: hash, short hash, author, date, subject.
pub open spec fn history_format() -> Seq<char> {
    "--format=%H|%h|%an|%aI|%s"@
}

/// Arguments of the last twenty commits that touched a path.
pub fn file_history_args(path: &str) -> (r: Vec<String>)
    ensures
        texts(r@) == seq!["log"@, history_format(), "-n"@, "20"@, "--"@, path@],
{
    let mut r: Vec<String> = Vec::new();
    push_lit(&mut r, "log");
    push_lit(&mut r, "--format=%H|%h|%an|%aI|%s");
    push_lit(&mut r, "-n");
    push_lit(&mut r, "20");
    push_lit(&mut r, "--");
    push_arg(&mut r, string_from(path));
    r
}

/// A line of the history log: five `|`-separated fields, the subject last
/// (it may hold `|` itself). The date is 0 when it does not parse.
pub open spec fn history_line(line: Seq<char>) -> Option<GitCommitView> {
    let parts = splitn_char(line, 5, '|');
    if parts.len() != 5 {
        None
    } else {
        Some(
            GitCommitView {
                hash: parts[0],
                short_hash: parts[1],
                author: parts[2],
                date: date_or_zero(rfc3339_timestamp(parts[3])),
                message: parts[4],
            },
        )
    }
}

/// The commits of the history log's lines, in order; other lines are skipped.
pub open spec fn history_commits(ls: Seq<Seq<char>>) -> Seq<GitCommitView>
    decreases ls.len(),
{
    if ls.len() == 0 {
        seq![]
    } else {
        let prev = history_commits(ls.drop_last());
        match history_line(ls.last()) {
            Some(c) => prev.push(c),
            None => prev,
        }
    }
}

fn parse_history_line(line: &[char]) -> (r: Option<GitCommit>)
    ensures
        match r {
            Some(c) => history_line(line@) == Some(c@),
            None => history_line(line@) is None,
        },
{
    let parts = splitn(line, 5, '|');
    if parts.len() != 5 {
        return None;
    }
    assert(views(parts@)[0] == parts@[0]@ && views(parts@)[1] == parts@[1]@);
    assert(views(parts@)[2] == parts@[2]@ && views(parts@)[3] == parts@[3]@);
    assert(views(parts@)[4] == parts@[4]@);
    let date_text = string_of(parts[3].as_slice());
    Some(
        GitCommit {
            hash: string_of(parts[0].as_slice()),
            short_hash: string_of(parts[1].as_slice()),
            author: string_of(parts[2].as_slice()),
            date: commit_timestamp(date_text.as_str()),
            message: string_of(parts[4].as_slice()),
        },
    )
}

/// The commits of `git log --format=%H|%h|%an|%aI|%s` output.
pub fn parse_file_history(stdout: &str) -> (r: Vec<GitCommit>)
    ensures
        commits_view(r@) == history_commits(lines(stdout@)),
{
    let text = chars_of(stdout);
    let ls = lines_of(text.as_slice());
    let ghost lv = lines(stdout@);
    let mut out: Vec<GitCommit> = Vec::new();
    for i in 0..ls.len()
        invariant
            views(ls@) == lv,
            commits_view(out@) == history_commits(lv.take(i as int)),
    {
        proof {
            assert(lv.take(i + 1).drop_last() =~= lv.take(i as int));
            assert(lv.take(i + 1).last() == ls@[i as int]@);
        }
        match parse_history_line(ls[i].as_slice()) {
            Some(c) => {
                let ghost before = out@;
                out.push(c);
                assert(commits_view(out@) =~= commits_view(before).push(c@));
            },
            None => {},
        }
    }
    proof {
        assert(lv.take(ls@.len() as int) =~= lv);
    }
    out
}

/// Whether a failed log only says that the branch has no commits yet.
pub open spec fn without_commits(stderr: Seq<char>) -> bool {
    contains(stderr, "does not have any commits yet"@)
}

/// A note's history from the outcome of its log: empty on a branch without
/// commits, the log's error otherwise, and the parsed commits on success.
pub fn get_file_history(outcome: Result<CommandOutput, String>) -> (r: Result<
    Vec<GitCommit>,
    String,
>)
    ensures
        match outcome {
            Err(e) => r matches Err(m) && m@ == "Failed to run git log: "@ + e@,
            Ok(o) => if !o.success {
                if without_commits(o.stderr@) {
                    r matches Ok(v) && v@.len() == 0
                } else {
                    r matches Err(m) && m@ == "git log failed: "@ + o.stderr@
                }
            } else {
                r matches Ok(v) && commits_view(v@) == history_commits(lines(o.stdout@))
            },
        },
{
    match outcome {
        Err(e) => Err(prefixed("Failed to run git log: ", e.as_str())),
        Ok(o) => {
            if !o.success {
                let err = chars_of(o.stderr.as_str());
                if contains_lit(err.as_slice(), "does not have any commits yet") {
                    return Ok(Vec::new());
                }
                return Err(prefixed("git log failed: ", o.stderr.as_str()));
            }
            Ok(parse_file_history(o.stdout.as_str()))
        },
    }
}

/// Each line with `+` in front.
pub open spec fn added_lines(ls: Seq<Seq<char>>) -> Seq<Seq<char>> {
    Seq::new(ls.len(), |i: int| "+"@ + ls[i])
}

/// A diff that shows a whole file as new: its lines, each marked added.
pub open spec fn new_file_diff_spec(path: Seq<char>, content: Seq<char>) -> Seq<char> {
    let ls = lines(content);
    "diff --git a/"@ + path + " b/"@ + path + "\nnew file\n--- /dev/null\n+++ b/"@ + path
        + "\n@@ -0,0 +1,"@ + decimal(ls.len()) + " @@\n"@ + join(added_lines(ls), "\n"@)
}

pub fn new_file_diff(path: &str, content: &str) -> (r: String)
    ensures
        r@ == new_file_diff_spec(path@, content@),
{
    let c = chars_of(content);
    let ls = lines_of(c.as_slice());
    let mut plus: Vec<Vec<char>> = Vec::new();
    for i in 0..ls.len()
        invariant
            views(plus@) == added_lines(views(ls@)).take(i as int),
    {
        let mut l = chars_of("+");
        push_all(&mut l, ls[i].as_slice());
        proof {
            lemma_views_push(plus@, l);
            assert(added_lines(views(ls@)).take(i + 1) =~= added_lines(views(ls@)).take(
                i as int,
            ).push(l@));
        }
        plus.push(l);
    }
    proof {
        assert(added_lines(views(ls@)).take(ls@.len() as int) =~= added_lines(views(ls@)));
    }
    let body = join_chars(&plus, chars_of("\n").as_slice());
    let p = chars_of(path);
    let mut r = chars_of("diff --git a/");
    push_all(&mut r, p.as_slice());
    push_all(&mut r, chars_of(" b/").as_slice());
    push_all(&mut r, p.as_slice());
    push_all(&mut r, chars_of("\nnew file\n--- /dev/null\n+++ b/").as_slice());
    push_all(&mut r, p.as_slice());
    push_all(&mut r, chars_of("\n@@ -0,0 +1,").as_slice());
    let n = ls.len() as u64;
    push_all(&mut r, chars_of(decimal_string(n).as_str()).as_slice());
    push_all(&mut r, chars_of(" @@\n").as_slice());
    push_all(&mut r, body.as_slice());
    string_of(r.as_slice())
}

/// Arguments of the working-tree diff of a path.
pub fn worktree_diff_args(path: &str) -> (r: Vec<String>)
    ensures
        texts(r@) == seq!["diff"@, "--"@, path@],
{
    let mut r: Vec<String> = Vec::new();
    push_lit(&mut r, "diff");
    push_lit(&mut r, "--");
    push_arg(&mut r, string_from(path));
    r
}

/// Arguments of the staged diff of a path.
pub fn cached_diff_args(path: &str) -> (r: Vec<String>)
    ensures
        texts(r@) == seq!["diff"@, "--cached"@, "--"@, path@],
{
    let mut r: Vec<String> = Vec::new();
    push_lit(&mut r, "diff");
    push_lit(&mut r, "--cached");
    push_lit(&mut r, "--");
    push_arg(&mut r, string_from(path));
    r
}

/// Arguments of the short status of a path.
pub fn path_status_args(path: &str) -> (r: Vec<String>)
    ensures
        texts(r@) == seq!["status"@, "--porcelain"@, "--"@, path@],
{
    let mut r: Vec<String> = Vec::new();
    push_lit(&mut r, "status");
    push_lit(&mut r, "--porcelain");
    push_lit(&mut r, "--");
    push_arg(&mut r, string_from(path));
    r
}

/// The command whose outcome the diff of a note is waiting for.
#[derive(Clone, Copy, PartialEq, Eq, Structural)]
pub enum DiffStage {
    /// `git diff -- <path>`
    Worktree,
    /// `git diff --cached -- <path>`
    Cached,
    /// `git status --porcelain -- <path>`
    Status,
}

/// What comes after a step of a note's diff.
pub enum DiffNext {
    /// The diff, or the error to report.
    Finished(Result<String, String>),
    /// Run the command of this stage next.
    Run(DiffStage),
    /// The note is untracked: read it and show it whole as new.
    ReadUntracked,
}

/// One step of a note's diff in the working tree: the working-tree diff if it
/// shows anything, else the staged diff if it does, else the whole file when it
/// is untracked, else the empty diff.
pub fn get_file_diff(stage: DiffStage, outcome: Result<CommandOutput, String>) -> (r: DiffNext)
    ensures
        match outcome {
            Err(e) => r matches DiffNext::Finished(Err(m)) && m@ == (match stage {
                DiffStage::Worktree => "Failed to run git diff: "@,
                DiffStage::Cached => "Failed to run git diff --cached: "@,
                DiffStage::Status => "Failed to run git status: "@,
            }) + e@,
            Ok(o) => match stage {
                DiffStage::Worktree => if o.stdout@.len() > 0 {
                    r matches DiffNext::Finished(Ok(d)) && d@ == o.stdout@
                } else {
                    r matches DiffNext::Run(s) && s == DiffStage::Cached
                },
                DiffStage::Cached => if o.stdout@.len() > 0 {
                    r matches DiffNext::Finished(Ok(d)) && d@ == o.stdout@
                } else {
                    r matches DiffNext::Run(s) && s == DiffStage::Status
                },
                DiffStage::Status => if starts_with(o.stdout@, "??"@) {
                    r is ReadUntracked
                } else {
                    r matches DiffNext::Finished(Ok(d)) && d@.len() == 0
                },
            },
        },
{
    match outcome {
        Err(e) => {
            let prefix = match stage {
                DiffStage::Worktree => "Failed to run git diff: ",
                DiffStage::Cached => "Failed to run git diff --cached: ",
                DiffStage::Status => "Failed to run git status: ",
            };
            DiffNext::Finished(Err(prefixed(prefix, e.as_str())))
        },
        Ok(o) => match stage {
            DiffStage::Worktree => if o.stdout.as_str().is_empty() {
                DiffNext::Run(DiffStage::Cached)
            } else {
                DiffNext::Finished(Ok(o.stdout))
            },
            DiffStage::Cached => if o.stdout.as_str().is_empty() {
                DiffNext::Run(DiffStage::Status)
            } else {
                DiffNext::Finished(Ok(o.stdout))
            },
            DiffStage::Status => {
                let out = chars_of(o.stdout.as_str());
                if has_prefix(out.as_slice(), chars_of("??").as_slice()) {
                    DiffNext::ReadUntracked
                } else {
                    DiffNext::Finished(Ok(String::new()))
                }
            },
        },
    }
}

/// The diff of an untracked note from the outcome of reading it.
pub fn untracked_file_diff(path: &str, read: Result<String, String>) -> (r: Result<String, String>)
    ensures
        match read {
            Err(e) => r matches Err(m) && m@ == "Failed to read file: "@ + e@,
            Ok(content) => r matches Ok(d) && d@ == new_file_diff_spec(path@, content@),
        },
{
    match read {
        Err(e) => Err(prefixed("Failed to read file: ", e.as_str())),
        Ok(content) => Ok(new_file_diff(path, content.as_str())),
    }
}

/// The revision text `<hash>^`: the commit's first parent.
pub open spec fn parent_rev(hash: Seq<char>) -> Seq<char> {
    hash + "^"@
}

/// Arguments of the diff a commit made to a path.
pub fn commit_diff_args(hash: &str, path: &str) -> (r: Vec<String>)
    ensures
        texts(r@) == seq!["diff"@, parent_rev(hash@), hash@, "--"@, path@],
{
    let mut r: Vec<String> = Vec::new();
    push_lit(&mut r, "diff");
    push_arg(&mut r, prefixed(hash, "^"));
    push_arg(&mut r, string_from(hash));
    push_lit(&mut r, "--");
    push_arg(&mut r, string_from(path));
    r
}

/// Arguments that print a path as a commit left it.
pub fn show_at_commit_args(hash: &str, path: &str) -> (r: Vec<String>)
    ensures
        texts(r@) == seq!["show"@, hash@ + ":"@ + path@],
{
    let mut r: Vec<String> = Vec::new();
    push_lit(&mut r, "show");
    let mut spec_arg = chars_of(hash);
    push_all(&mut spec_arg, chars_of(":").as_slice());
    push_all(&mut spec_arg, chars_of(path).as_slice());
    push_arg(&mut r, string_of(spec_arg.as_slice()));
    r
}

/// The first step of a note's diff at a commit: the diff against the parent
/// when Git gave one (empty when the commit left the note unchanged); `None`
/// when the diff against the parent failed without output (a commit without
/// parent), which asks for the file at the commit.
pub fn commit_diff_step(outcome: Result<CommandOutput, String>) -> (r: Option<Result<String, String>>)
    ensures
        match outcome {
            Err(e) => r matches Some(Err(m)) && m@ == "Failed to run git diff: "@ + e@,
            Ok(o) => if o.success || o.stdout@.len() > 0 {
                r matches Some(Ok(d)) && d@ == o.stdout@
            } else {
                r is None
            },
        },
{
    match outcome {
        Err(e) => Some(Err(prefixed("Failed to run git diff: ", e.as_str()))),
        Ok(o) => if o.success || !o.stdout.as_str().is_empty() {
            Some(Ok(o.stdout))
        } else {
            None
        },
    }
}

/// A note's diff at a commit without parent: the file
/// as the commit left it, shown whole as new, when Git could print it, else
/// the empty diff.
pub fn get_file_diff_at_commit(path: &str, show: Result<CommandOutput, String>) -> (r: Result<
    String,
    String,
>)
    ensures
        match show {
            Err(e) => r matches Err(m) && m@ == "Failed to run git show: "@ + e@,
            Ok(o) => if o.success {
                r matches Ok(d) && d@ == new_file_diff_spec(path@, o.stdout@)
            } else {
                r matches Ok(d) && d@.len() == 0
            },
        },
{
    match show {
        Err(e) => Err(prefixed("Failed to run git show: ", e.as_str())),
        Ok(o) => if o.success {
            Ok(new_file_diff(path, o.stdout.as_str()))
        } else {
            Ok(String::new())
        },
    }
}

/// The log line `%H|%h|%an|%aI|%s` of a commit: hash, short hash, author and
/// date (none holding `|`), then the subject.
pub open spec fn log_line(hash: Seq<char>, short: Seq<char>, author: Seq<char>, date: Seq<char>, subject: Seq<char>) -> Seq<char> {
    hash + seq!['|'] + short + seq!['|'] + author + seq!['|'] + date + seq!['|'] + subject
}

/// A commit of a note's history is read field by field from its log line: the
/// hash is the first field (`%H`), the short hash the second (`%h`), the author
/// the third, the date the Unix time of the fourth (0 when it is no RFC 3339
/// date), and the subject, `|` included, the rest.
pub proof fn law_history_fields(
    hash: Seq<char>,
    short: Seq<char>,
    author: Seq<char>,
    date: Seq<char>,
    subject: Seq<char>,
)
    requires
        !hash.contains('|'),
        !short.contains('|'),
        !author.contains('|'),
        !date.contains('|'),
    ensures
        history_line(log_line(hash, short, author, date, subject)) == Some(
            GitCommitView {
                hash,
                short_hash: short,
                author,
                date: date_or_zero(rfc3339_timestamp(date)),
                message: subject,
            },
        ),
        history_commits(seq![log_line(hash, short, author, date, subject)]) == seq![
            GitCommitView {
                hash,
                short_hash: short,
                author,
                date: date_or_zero(rfc3339_timestamp(date)),
                message: subject,
            },
        ],
{
    let bar = seq!['|'];
    let r3 = date + bar + subject;
    let r2 = author + bar + r3;
    let r1 = short + bar + r2;
    let line = log_line(hash, short, author, date, subject);
    assert(line =~= hash + bar + r1);
    assert(r1 =~= short + bar + r2);
    assert(r2 =~= author + bar + r3);
    crate::text::lemma_splitn_field(hash, r1, 5, '|');
    crate::text::lemma_splitn_field(short, r2, 4, '|');
    crate::text::lemma_splitn_field(author, r3, 3, '|');
    crate::text::lemma_splitn_field(date, subject, 2, '|');
    let parts = splitn_char(line, 5, '|');
    assert(parts =~= seq![hash, short, author, date, subject]);
    let one = seq![line];
    assert(one.drop_last() =~= Seq::<Seq<char>>::empty());
    assert(history_commits(one.drop_last()) == Seq::<GitCommitView>::empty());
    assert(one.last() == line);
    let view = GitCommitView {
        hash,
        short_hash: short,
        author,
        date: date_or_zero(rfc3339_timestamp(date)),
        message: subject,
    };
    assert(history_commits(one) == Seq::<GitCommitView>::empty().push(view));
    assert(Seq::<GitCommitView>::empty().push(view) =~= seq![view]);
}

} // verus!
