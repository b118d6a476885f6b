//! The vault's activity feed: recent commits that touched its Markdown notes.
use vstd::prelude::*;
use crate::command::{push_arg, push_lit, texts, CommandOutput};
use crate::dates::{commit_timestamp, date_or_zero, rfc3339_timestamp};
use crate::text::{
    chars_of, contains, contains_chars, contains_lit, decimal, decimal_string, ends_with, has_suffix,
    lines, lines_of, prefixed, push_all, replace, replace_char, rfind, rfind_char, lemma_rfind_char,
    slice_of, splitn, splitn_char, starts_with, strip_prefix, string_from, string_of, trim,
    trim_chars, views, is_ascii_upper,
};
use crate::workspace::{trim_end_matches, vault_relative, GitWorkspace};

verus! {

/// A Markdown note that a commit added, modified or deleted.
pub struct PulseFile {
    pub path: String,
    pub status: String,
    pub title: String,
}

/// A commit of the activity feed with its note changes.
pub struct PulseCommit {
    pub hash: String,
    pub short_hash: String,
    pub message: String,
    pub date: i64,
    pub github_url: Option<String>,
    pub files: Vec<PulseFile>,
    pub added: usize,
    pub modified: usize,
    pub deleted: usize,
}

/// The last commit of the vault and its GitHub page, if the remote is on GitHub.
pub struct LastCommitInfo {
    pub short_hash: String,
    pub commit_url: Option<String>,
}

pub struct PulseFileView {
    pub path: Seq<char>,
    pub status: Seq<char>,
    pub title: Seq<char>,
}

pub struct PulseCommitView {
    pub hash: Seq<char>,
    pub short_hash: Seq<char>,
    pub message: Seq<char>,
    pub date: i64,
    pub github_url: Option<Seq<char>>,
    pub files: Seq<PulseFileView>,
    pub added: nat,
    pub modified: nat,
    pub deleted: nat,
}

pub open spec fn opt_text(o: Option<String>) -> Option<Seq<char>> {
    match o {
        Some(s) => Some(s@),
        None => None,
    }
}

pub open spec fn opt_str(o: Option<&str>) -> Option<Seq<char>> {
    match o {
        Some(s) => Some(s@),
        None => None,
    }
}

impl View for PulseFile {
    type V = PulseFileView;

    open spec fn view(&self) -> PulseFileView {
        PulseFileView { path: self.path@, status: self.status@, title: self.title@ }
    }
}

pub open spec fn files_view(v: Seq<PulseFile>) -> Seq<PulseFileView> {
    Seq::new(v.len(), |i: int| v[i]@)
}

impl View for PulseCommit {
    type V = PulseCommitView;

    open spec fn view(&self) -> PulseCommitView {
        PulseCommitView {
            hash: self.hash@,
            short_hash: self.short_hash@,
            message: self.message@,
            date: self.date,
            github_url: opt_text(self.github_url),
            files: files_view(self.files@),
            added: self.added as nat,
            modified: self.modified as nat,
            deleted: self.deleted as nat,
        }
    }
}

pub open spec fn commits_view(v: Seq<PulseCommit>) -> Seq<PulseCommitView> {
    Seq::new(v.len(), |i: int| v[i]@)
}

/// A note's title from its path: the file name without `.md`, dashes as spaces.
/// A path that does not end in `.md` is used whole.
pub open spec fn title_of(path: Seq<char>) -> Seq<char> {
    let i = rfind_char(path, '/');
    let base = if i < 0 {
        path
    } else {
        path.subrange(i + 1, path.len() as int)
    };
    let t = if ends_with(base, ".md"@) {
        base.subrange(0, base.len() - 3)
    } else {
        path
    };
    replace_char(t, '-', seq![' '])
}

pub fn title_from_path(path: &str) -> (r: String)
    ensures
        r@ == title_of(path@),
{
    let p = chars_of(path);
    proof {
        lemma_rfind_char(p@, '/');
        reveal_strlit(".md");
    }
    let n = p.len();
    let base = match rfind(p.as_slice(), '/') {
        None => slice_of(p.as_slice(), 0, n),
        Some(i) => slice_of(p.as_slice(), i + 1, n),
    };
    assert(p@.subrange(0, p@.len() as int) =~= p@);
    let md = chars_of(".md");
    let t = if has_suffix(base.as_slice(), md.as_slice()) {
        slice_of(base.as_slice(), 0, base.len() - 3)
    } else {
        p
    };
    let space = [' '];
    assert(space@ =~= seq![' ']);
    string_of(replace(t.as_slice(), '-', &space).as_slice())
}

/// The status label of a `--name-status` code.
pub open spec fn file_status_label(code: Seq<char>) -> Seq<char> {
    if code == seq!['A'] {
        "added"@
    } else if code == seq!['D'] {
        "deleted"@
    } else {
        "modified"@
    }
}

fn file_status_of(code: &[char]) -> (r: String)
    ensures
        r@ == file_status_label(code@),
{
    if code.len() == 1 && code[0] == 'A' {
        assert(code@ =~= seq!['A']);
        string_from("added")
    } else if code.len() == 1 && code[0] == 'D' {
        assert(code@ =~= seq!['D']);
        string_from("deleted")
    } else {
        proof {
            if code@ == seq!['A'] || code@ == seq!['D'] {
                assert(code@.len() == 1);
            }
        }
        string_from("modified")
    }
}

/// A `--name-status` line: an uppercase status letter then a tab.
pub open spec fn is_status_line(line: Seq<char>) -> bool {
    line.len() >= 2 && is_ascii_upper(line[0]) && line[1] == '\t'
}

/// A commit header line of the log: it has a `|` and is no status line.
pub open spec fn is_commit_header(line: Seq<char>) -> bool {
    contains(line, seq!['|']) && !is_status_line(line)
}

fn is_commit_header_chars(line: &[char]) -> (r: bool)
    ensures
        r == is_commit_header(line@),
{
    let bar = ['|'];
    assert(bar@ =~= seq!['|']);
    let status = line.len() >= 2 && 'A' <= line[0] && line[0] <= 'Z' && line[1] == '\t';
    contains_chars(line, &bar) && !status
}

/// The commit a header line `hash|short|subject|date` starts.
pub open spec fn header_commit(line: Seq<char>, base: Option<Seq<char>>) -> Option<PulseCommitView> {
    let parts = splitn_char(line, 4, '|');
    if parts.len() != 4 {
        None
    } else {
        Some(
            PulseCommitView {
                hash: parts[0],
                short_hash: parts[1],
                message: parts[2],
                date: date_or_zero(rfc3339_timestamp(parts[3])),
                github_url: match base {
                    Some(b) => Some(b + "/commit/"@ + parts[0]),
                    None => None,
                },
                files: seq![],
                added: 0,
                modified: 0,
                deleted: 0,
            },
        )
    }
}

/// The note change a `status<TAB>path` line reports.
pub open spec fn file_change(line: Seq<char>) -> Option<PulseFileView> {
    let parts = splitn_char(line, 2, '\t');
    if parts.len() != 2 {
        None
    } else {
        let path = trim(parts[1]);
        Some(PulseFileView { path, status: file_status_label(trim(parts[0])), title: title_of(path) })
    }
}

pub open spec fn count_status(files: Seq<PulseFileView>, status: Seq<char>) -> nat
    decreases files.len(),
{
    if files.len() == 0 {
        0
    } else {
        count_status(files.drop_last(), status) + if files.last().status == status {
            1nat
        } else {
            0nat
        }
    }
}

/// A commit with its change counts taken from its files.
pub open spec fn counted(c: PulseCommitView) -> PulseCommitView {
    PulseCommitView {
        added: count_status(c.files, "added"@),
        modified: count_status(c.files, "modified"@),
        deleted: count_status(c.files, "deleted"@),
        ..c
    }
}

pub open spec fn with_file(c: PulseCommitView, line: Seq<char>) -> PulseCommitView {
    match file_change(line) {
        Some(f) => PulseCommitView { files: c.files.push(f), ..c },
        None => c,
    }
}

/// Commits read so far and the commit being read.
pub open spec fn flush(done: Seq<PulseCommitView>, current: Option<PulseCommitView>) -> Seq<
    PulseCommitView,
> {
    match current {
        Some(c) => done.push(counted(c)),
        None => done,
    }
}

pub open spec fn pulse_step(
    st: (Seq<PulseCommitView>, Option<PulseCommitView>),
    line: Seq<char>,
    base: Option<Seq<char>>,
) -> (Seq<PulseCommitView>, Option<PulseCommitView>) {
    if line.len() == 0 {
        st
    } else if is_commit_header(line) {
        (flush(st.0, st.1), header_commit(line, base))
    } else {
        match st.1 {
            Some(c) => (st.0, Some(with_file(c, line))),
            None => st,
        }
    }
}

pub open spec fn pulse_fold(ls: Seq<Seq<char>>, base: Option<Seq<char>>) -> (
    Seq<PulseCommitView>,
    Option<PulseCommitView>,
)
    decreases ls.len(),
{
    if ls.len() == 0 {
        (seq![], None)
    } else {
        pulse_step(pulse_fold(ls.drop_last(), base), ls.last(), base)
    }
}

/// The commits of `git log --name-status --pretty=format:%H|%h|%s|%aI` output.
pub open spec fn parse_pulse(stdout: Seq<char>, base: Option<Seq<char>>) -> Seq<PulseCommitView> {
    let st = pulse_fold(lines(stdout), base);
    flush(st.0, st.1)
}

fn parse_commit_header(line: &[char], base: Option<&str>) -> (r: Option<PulseCommit>)
    ensures
        match r {
            Some(c) => header_commit(line@, opt_str(base)) == Some(c@),
            None => header_commit(line@, opt_str(base)) is None,
        },
{
    let parts = splitn(line, 4, '|');
    if parts.len() != 4 {
        return None;
    }
    assert(views(parts@)[0] == parts@[0]@ && views(parts@)[1] == parts@[1]@);
    assert(views(parts@)[2] == parts@[2]@ && views(parts@)[3] == parts@[3]@);
    let hash = string_of(parts[0].as_slice());
    let date_text = string_of(parts[3].as_slice());
    let date = commit_timestamp(date_text.as_str());
    let github_url = match base {
        Some(b) => {
            let mut u = chars_of(b);
            push_all(&mut u, chars_of("/commit/").as_slice());
            push_all(&mut u, parts[0].as_slice());
            Some(string_of(u.as_slice()))
        },
        None => None,
    };
    let c = PulseCommit {
        hash,
        short_hash: string_of(parts[1].as_slice()),
        message: string_of(parts[2].as_slice()),
        date,
        github_url,
        files: Vec::new(),
        added: 0,
        modified: 0,
        deleted: 0,
    };
    assert(files_view(c.files@) =~= seq![]);
    Some(c)
}

fn file_change_of(line: &[char]) -> (r: Option<PulseFile>)
    ensures
        match r {
            Some(f) => file_change(line@) == Some(f@),
            None => file_change(line@) is None,
        },
{
    let parts = splitn(line, 2, '\t');
    if parts.len() != 2 {
        return None;
    }
    assert(views(parts@)[0] == parts@[0]@ && views(parts@)[1] == parts@[1]@);
    let code = trim_chars(parts[0].as_slice());
    let path = string_of(trim_chars(parts[1].as_slice()).as_slice());
    let title = title_from_path(path.as_str());
    Some(PulseFile { path, status: file_status_of(code.as_slice()), title })
}

fn count_with_status(files: &Vec<PulseFile>, status: &str) -> (n: usize)
    ensures
        n as nat == count_status(files_view(files@), status@),
{
    let mut n: usize = 0;
    for i in 0..files.len()
        invariant
            n <= i,
            n as nat == count_status(files_view(files@).take(i as int), status@),
    {
        assert(files_view(files@).take(i + 1).drop_last() =~= files_view(files@).take(i as int));
        assert(files_view(files@).take(i + 1).last() == files@[i as int]@);
        if files[i].status == string_from(status) {
            n += 1;
        }
    }
    assert(files_view(files@).take(files@.len() as int) =~= files_view(files@));
    n
}

pub open spec fn current_view(c: Option<PulseCommit>) -> Option<PulseCommitView> {
    match c {
        Some(c) => Some(c@),
        None => None,
    }
}

fn count_changes(c: PulseCommit) -> (r: PulseCommit)
    ensures
        r@ == counted(c@),
{
    let added = count_with_status(&c.files, "added");
    let modified = count_with_status(&c.files, "modified");
    let deleted = count_with_status(&c.files, "deleted");
    PulseCommit { added, modified, deleted, ..c }
}

fn push_file(c: &mut PulseCommit, f: PulseFile)
    ensures
        final(c)@ == (PulseCommitView { files: old(c)@.files.push(f@), ..old(c)@ }),
{
    c.files.push(f);
    assert(files_view(c.files@) =~= old(c)@.files.push(f@));
}

/// The commits and note changes of the activity-feed log output; each commit
/// links to `github_base/commit/<hash>` when a GitHub base is given.
pub fn parse_pulse_output(stdout: &str, github_base: Option<&str>) -> (r: Vec<PulseCommit>)
    ensures
        commits_view(r@) == parse_pulse(stdout@, opt_str(github_base)),
{
    let v = chars_of(stdout);
    let ls = lines_of(v.as_slice());
    let ghost base = opt_str(github_base);
    let mut commits: Vec<PulseCommit> = Vec::new();
    let mut current: Option<PulseCommit> = None;
    for i in 0..ls.len()
        invariant
            views(ls@) == lines(stdout@),
            base == opt_str(github_base),
            (commits_view(commits@), current_view(current)) == pulse_fold(
                views(ls@).take(i as int),
                base,
            ),
    {
        assert(views(ls@).take(i + 1).drop_last() =~= views(ls@).take(i as int));
        assert(views(ls@).take(i + 1).last() == ls@[i as int]@);
        let line = ls[i].as_slice();
        if line.len() == 0 {
        } else if is_commit_header_chars(line) {
            match current {
                Some(c) => {
                    let done = count_changes(c);
                    let ghost before = commits@;
                    commits.push(done);
                    assert(commits_view(commits@) =~= commits_view(before).push(done@));
                },
                None => {},
            }
            current = parse_commit_header(line, github_base);
        } else {
            match current {
                Some(mut c) => {
                    match file_change_of(line) {
                        Some(f) => push_file(&mut c, f),
                        None => {},
                    }
                    current = Some(c);
                },
                None => {},
            }
        }
    }
    assert(views(ls@).take(ls@.len() as int) =~= views(ls@));
    match current {
        Some(c) => {
            let done = count_changes(c);
            let ghost before = commits@;
            commits.push(done);
            assert(commits_view(commits@) =~= commits_view(before).push(done@));
        },
        None => {},
    }
    commits
}

/// The note changes of a commit that lie in the vault, with vault-relative
/// paths and titles; files that are not Markdown are left out.
pub open spec fn scoped_files(files: Seq<PulseFileView>, pathspec: Seq<char>) -> Seq<PulseFileView>
    decreases files.len(),
{
    if files.len() == 0 {
        seq![]
    } else {
        let rest = scoped_files(files.drop_last(), pathspec);
        let f = files.last();
        match vault_relative(pathspec, f.path) {
            Some(rel) => if ends_with(rel, ".md"@) {
                rest.push(PulseFileView { path: rel, status: f.status, title: title_of(rel) })
            } else {
                rest
            },
            None => rest,
        }
    }
}

/// The feed restricted to the vault: commits without vault notes are dropped.
pub open spec fn scoped_pulse(commits: Seq<PulseCommitView>, pathspec: Seq<char>) -> Seq<
    PulseCommitView,
>
    decreases commits.len(),
{
    if commits.len() == 0 {
        seq![]
    } else {
        let rest = scoped_pulse(commits.drop_last(), pathspec);
        let c = commits.last();
        let fs = scoped_files(c.files, pathspec);
        if fs.len() == 0 {
            rest
        } else {
            rest.push(counted(PulseCommitView { files: fs, ..c }))
        }
    }
}

fn scope_files(files: Vec<PulseFile>, ws: &GitWorkspace) -> (r: Vec<PulseFile>)
    ensures
        files_view(r@) == scoped_files(files_view(files@), ws@.pathspec),
{
    let mut out: Vec<PulseFile> = Vec::new();
    let md = chars_of(".md");
    proof {
        reveal_strlit(".md");
    }
    for i in 0..files.len()
        invariant
            md@ == ".md"@,
            files_view(out@) == scoped_files(files_view(files@).take(i as int), ws@.pathspec),
    {
        assert(files_view(files@).take(i + 1).drop_last() =~= files_view(files@).take(i as int));
        assert(files_view(files@).take(i + 1).last() == files@[i as int]@);
        match ws.vault_relative_path(files[i].path.as_str()) {
            Some(rel) => {
                let relv = chars_of(rel.as_str());
                if has_suffix(relv.as_slice(), md.as_slice()) {
                    let title = title_from_path(rel.as_str());
                    let f = PulseFile { path: rel, status: files[i].status.clone(), title };
                    let ghost before = out@;
                    out.push(f);
                    assert(files_view(out@) =~= files_view(before).push(f@));
                }
            },
            None => {},
        }
    }
    assert(files_view(files@).take(files@.len() as int) =~= files_view(files@));
    out
}

/// Restricts the feed to the vault's notes, with vault-relative paths.
pub fn scope_pulse_to_vault(commits: Vec<PulseCommit>, ws: &GitWorkspace) -> (r: Vec<PulseCommit>)
    ensures
        commits_view(r@) == scoped_pulse(commits_view(commits@), ws@.pathspec),
{
    let ghost target = scoped_pulse(commits_view(commits@), ws@.pathspec);
    let mut commits = commits;
    // Scoped commits, last first.
    let mut acc: Vec<PulseCommit> = Vec::new();
    while commits.len() > 0
        invariant
            target == scoped_pulse(commits_view(commits@), ws@.pathspec) + commits_view(acc@).reverse(),
        decreases commits@.len(),
    {
        let ghost before = commits@;
        let ghost before_acc = acc@;
        let c = commits.pop().unwrap();
        assert(commits_view(before).drop_last() =~= commits_view(commits@));
        assert(commits_view(before).last() == c@);
        let files = scope_files(c.files, ws);
        if files.len() > 0 {
            let sc = count_changes(PulseCommit { files, ..c });
            acc.push(sc);
            assert(commits_view(acc@).reverse() =~= seq![sc@] + commits_view(before_acc).reverse());
            assert(target =~= scoped_pulse(commits_view(commits@), ws@.pathspec) + commits_view(acc@).reverse());
        } else {
            assert(files_view(files@).len() == 0);
        }
    }
    assert(scoped_pulse(commits_view(commits@), ws@.pathspec) =~= Seq::<PulseCommitView>::empty());
    let mut out: Vec<PulseCommit> = Vec::new();
    assert(target =~= commits_view(out@) + commits_view(acc@).reverse());
    while acc.len() > 0
        invariant
            target == commits_view(out@) + commits_view(acc@).reverse(),
        decreases acc@.len(),
    {
        let ghost before_acc = acc@;
        let ghost before_out = out@;
        let c = acc.pop().unwrap();
        out.push(c);
        assert(commits_view(before_acc).reverse() =~= seq![c@] + commits_view(acc@).reverse());
        assert(commits_view(out@) =~= commits_view(before_out).push(c@));
        assert(target =~= commits_view(out@) + commits_view(acc@).reverse());
    }
    assert(commits_view(acc@).reverse() =~= Seq::<PulseCommitView>::empty());
    assert(target =~= commits_view(out@));
    out
}

/// `owner/repo` of a GitHub remote URL (HTTPS, SSH or scp form), without `.git`.
pub open spec fn github_repo_path(url: Seq<char>) -> Option<Seq<char>> {
    let t = trim(url);
    let rest = if starts_with(t, "https://github.com/"@) {
        Some(t.subrange(19, t.len() as int))
    } else if starts_with(t, "http://github.com/"@) {
        Some(t.subrange(18, t.len() as int))
    } else if starts_with(t, "git@github.com:"@) {
        Some(t.subrange(15, t.len() as int))
    } else if starts_with(t, "ssh://git@github.com/"@) {
        Some(t.subrange(21, t.len() as int))
    } else {
        None
    };
    match rest {
        None => None,
        Some(r) => {
            let r1 = trim_end_matches(r, '/');
            let r2 = if ends_with(r1, ".git"@) {
                r1.subrange(0, r1.len() - 4)
            } else {
                r1
            };
            if r2.len() == 0 {
                None
            } else {
                Some(r2)
            }
        },
    }
}

fn strip_lit_prefix(v: &[char], p: &str) -> (r: Option<Vec<char>>)
    ensures
        match r {
            Some(x) => starts_with(v@, p@) && x@ == v@.subrange(p@.len() as int, v@.len() as int),
            None => !starts_with(v@, p@),
        },
{
    let pv = chars_of(p);
    strip_prefix(v, pv.as_slice())
}

/// `owner/repo` of a GitHub remote.
pub fn parse_github_repo_path(url: &str) -> (r: Option<String>)
    ensures
        opt_text(r) == github_repo_path(url@),
{
    proof {
        reveal_strlit("https://github.com/");
        reveal_strlit("http://github.com/");
        reveal_strlit("git@github.com:");
        reveal_strlit("ssh://git@github.com/");
        reveal_strlit(".git");
    }
    let t = trim_chars(chars_of(url).as_slice());
    let rest = match strip_lit_prefix(t.as_slice(), "https://github.com/") {
        Some(r) => Some(r),
        None => match strip_lit_prefix(t.as_slice(), "http://github.com/") {
            Some(r) => Some(r),
            None => match strip_lit_prefix(t.as_slice(), "git@github.com:") {
                Some(r) => Some(r),
                None => strip_lit_prefix(t.as_slice(), "ssh://git@github.com/"),
            },
        },
    };
    match rest {
        None => None,
        Some(r) => {
            let mut j = r.len();
            assert(r@.subrange(0, r@.len() as int) =~= r@);
            while j > 0 && r[j - 1] == '/'
                invariant
                    j <= r@.len(),
                    trim_end_matches(r@, '/') == trim_end_matches(r@.subrange(0, j as int), '/'),
                decreases j,
            {
                assert(r@.subrange(0, j as int).drop_last() =~= r@.subrange(0, j - 1));
                j -= 1;
            }
            let r1 = slice_of(r.as_slice(), 0, j);
            let git = chars_of(".git");
            let r2 = if has_suffix(r1.as_slice(), git.as_slice()) {
                slice_of(r1.as_slice(), 0, r1.len() - 4)
            } else {
                r1
            };
            if r2.len() == 0 {
                None
            } else {
                Some(string_of(r2.as_slice()))
            }
        },
    }
}

/// The GitHub page base of the `origin` remote, from `git remote get-url origin`.
pub open spec fn github_base(success: bool, stdout: Seq<char>) -> Option<Seq<char>> {
    if !success {
        None
    } else {
        match github_repo_path(trim(stdout)) {
            Some(p) => Some("https://github.com/"@ + p),
            None => None,
        }
    }
}

pub fn get_github_base_url(outcome: Result<CommandOutput, String>) -> (r: Option<String>)
    ensures
        match outcome {
            Err(_) => r is None,
            Ok(o) => opt_text(r) == github_base(o.success, o.stdout@),
        },
{
    match outcome {
        Err(_) => None,
        Ok(o) => {
            if !o.success {
                return None;
            }
            let url = crate::text::trim_string(o.stdout.as_str());
            match parse_github_repo_path(url.as_str()) {
                Some(p) => Some(prefixed("https://github.com/", p.as_str())),
                None => None,
            }
        },
    }
}

/// A commit's GitHub page from a base URL.
pub open spec fn commit_url(base: Seq<char>, hash: Seq<char>) -> Seq<char> {
    base + "/commit/"@ + hash
}

pub fn github_commit_url(base: &str, hash: &str) -> (r: String)
    ensures
        r@ == commit_url(base@, hash@),
{
    let mut u = chars_of(base);
    push_all(&mut u, chars_of("/commit/").as_slice());
    push_all(&mut u, chars_of(hash).as_slice());
    string_of(u.as_slice())
}

/// Arguments of the activity-feed log: Markdown-relevant changes, `limit`
/// commits after skipping `skip`, restricted to the vault's pathspec.
pub open spec fn pulse_args_spec(limit: nat, skip: nat, pathspec: Seq<char>) -> Seq<Seq<char>> {
    seq![
        "log"@,
        "--name-status"@,
        "--pretty=format:%H|%h|%s|%aI"@,
        "--diff-filter=ADM"@,
        "-n"@,
        decimal(limit),
        "--skip"@,
        decimal(skip),
        "--"@,
        pathspec,
    ]
}

pub fn pulse_args(ws: &GitWorkspace, limit: usize, skip: usize) -> (r: Vec<String>)
    ensures
        texts(r@) == pulse_args_spec(limit as nat, skip as nat, ws@.pathspec_arg()),
{
    let mut r: Vec<String> = Vec::new();
    push_lit(&mut r, "log");
    push_lit(&mut r, "--name-status");
    push_lit(&mut r, "--pretty=format:%H|%h|%s|%aI");
    push_lit(&mut r, "--diff-filter=ADM");
    push_lit(&mut r, "-n");
    push_arg(&mut r, decimal_string(limit as u64));
    push_lit(&mut r, "--skip");
    push_arg(&mut r, decimal_string(skip as u64));
    push_lit(&mut r, "--");
    push_arg(&mut r, ws.vault_pathspec());
    assert(texts(r@) =~= pulse_args_spec(limit as nat, skip as nat, ws@.pathspec_arg()));
    r
}

/// Whether a failed log only says that the branch has no commits yet.
pub open spec fn no_commits_yet(stderr: Seq<char>) -> bool {
    contains(stderr, "does not have any commits yet"@)
}

/// The activity feed from the outcome of its log command and the GitHub base
/// (read after a successful log): an empty feed on a branch without commits,
/// the log's error otherwise, and on success the parsed commits scoped to the vault.
pub fn get_vault_pulse(
    ws: &GitWorkspace,
    outcome: Result<CommandOutput, String>,
    github_base: Option<String>,
) -> (r: Result<Vec<PulseCommit>, String>)
    ensures
        match outcome {
            Err(e) => r matches Err(m) && m@ == "Failed to run git log: "@ + e@,
            Ok(o) => if !o.success {
                if no_commits_yet(o.stderr@) {
                    r matches Ok(v) && v@.len() == 0
                } else {
                    r matches Err(m) && m@ == "git log failed: "@ + o.stderr@
                }
            } else {
                r matches Ok(v) && commits_view(v@) == scoped_pulse(
                    parse_pulse(o.stdout@, opt_text(github_base)),
                    ws@.pathspec,
                )
            },
        },
{
    match outcome {
        Err(e) => Err(prefixed("Failed to run git log: ", e.as_str())),
        Ok(o) => {
            if !o.success {
                let err = chars_of(o.stderr.as_str());
                if contains_lit(err.as_slice(), "does not have any commits yet") {
                    return Ok(Vec::new());
                }
                return Err(prefixed("git log failed: ", o.stderr.as_str()));
            }
            let base = match &github_base {
                Some(b) => Some(b.as_str()),
                None => None,
            };
            let commits = parse_pulse_output(o.stdout.as_str(), base);
            Ok(scope_pulse_to_vault(commits, ws))
        },
    }
}

/// Arguments of the log of the vault's last commit.
pub fn last_commit_args(ws: &GitWorkspace) -> (r: Vec<String>)
    ensures
        texts(r@) == seq!["log"@, "-1"@, "--format=%H|%h"@, "--"@, ws@.pathspec_arg()],
{
    let mut r: Vec<String> = Vec::new();
    push_lit(&mut r, "log");
    push_lit(&mut r, "-1");
    push_lit(&mut r, "--format=%H|%h");
    push_lit(&mut r, "--");
    push_arg(&mut r, ws.vault_pathspec());
    assert(texts(r@) =~= seq!["log"@, "-1"@, "--format=%H|%h"@, "--"@, ws@.pathspec_arg()]);
    r
}

/// The full and short hash of `hash|short` log output.
pub open spec fn last_commit_line(stdout: Seq<char>) -> Option<(Seq<char>, Seq<char>)> {
    let line = trim(stdout);
    let parts = splitn_char(line, 2, '|');
    if line.len() == 0 || parts.len() != 2 {
        None
    } else {
        Some((parts[0], parts[1]))
    }
}

/// The vault's last commit from its log and the GitHub base: `None` before the
/// first commit, when the log is empty or has no `|`.
pub fn get_last_commit_info(outcome: Result<CommandOutput, String>, github_base: Option<String>) -> (r:
    Result<Option<LastCommitInfo>, String>)
    ensures
        match outcome {
            Err(e) => r matches Err(m) && m@ == "Failed to run git log: "@ + e@,
            Ok(o) => if !o.success {
                if no_commits_yet(o.stderr@) {
                    r matches Ok(None)
                } else {
                    r matches Err(m) && m@ == "git log failed: "@ + o.stderr@
                }
            } else {
                match last_commit_line(o.stdout@) {
                    None => r matches Ok(None),
                    Some((full, short)) => r matches Ok(Some(info)) && info.short_hash@ == short
                        && opt_text(info.commit_url) == match github_base {
                        Some(b) => Some(commit_url(b@, full)),
                        None => None,
                    },
                }
            },
        },
{
    match outcome {
        Err(e) => Err(prefixed("Failed to run git log: ", e.as_str())),
        Ok(o) => {
            if !o.success {
                let err = chars_of(o.stderr.as_str());
                if contains_lit(err.as_slice(), "does not have any commits yet") {
                    return Ok(None);
                }
                return Err(prefixed("git log failed: ", o.stderr.as_str()));
            }
            let line = trim_chars(chars_of(o.stdout.as_str()).as_slice());
            if line.len() == 0 {
                return Ok(None);
            }
            let parts = splitn(line.as_slice(), 2, '|');
            if parts.len() != 2 {
                return Ok(None);
            }
            assert(views(parts@)[0] == parts@[0]@ && views(parts@)[1] == parts@[1]@);
            let full = string_of(parts[0].as_slice());
            let commit_url = match &github_base {
                Some(b) => Some(github_commit_url(b.as_str(), full.as_str())),
                None => None,
            };
            Ok(Some(LastCommitInfo { short_hash: string_of(parts[1].as_slice()), commit_url }))
        },
    }
}

/// Every file of the list carries one of the three change labels.
pub open spec fn labelled(files: Seq<PulseFileView>) -> bool {
    forall|k: int|
        0 <= k < files.len() ==> {
            let st = #[trigger] files[k].status;
            st == "added"@ || st == "modified"@ || st == "deleted"@
        }
}

proof fn lemma_labels_distinct()
    ensures
        "added"@ != "modified"@,
        "added"@ != "deleted"@,
        "modified"@ != "deleted"@,
{
    reveal_strlit("added");
    reveal_strlit("modified");
    reveal_strlit("deleted");
    assert("added"@.len() == 5);
    assert("modified"@.len() == 8);
    assert("deleted"@.len() == 7);
}

proof fn lemma_counts_add_up(files: Seq<PulseFileView>)
    requires
        labelled(files),
    ensures
        count_status(files, "added"@) + count_status(files, "modified"@) + count_status(
            files,
            "deleted"@,
        ) == files.len(),
    decreases files.len(),
{
    if files.len() > 0 {
        lemma_labels_distinct();
        let rest = files.drop_last();
        assert forall|k: int| 0 <= k < rest.len() implies {
            let st = #[trigger] rest[k].status;
            st == "added"@ || st == "modified"@ || st == "deleted"@
        } by {
            assert(rest[k] == files[k]);
        }
        lemma_counts_add_up(rest);
        assert(files.last() == files[files.len() - 1]);
    }
}

proof fn lemma_scoped_files_labelled(files: Seq<PulseFileView>, pathspec: Seq<char>)
    requires
        labelled(files),
    ensures
        labelled(scoped_files(files, pathspec)),
        forall|j: int|
            0 <= j < scoped_files(files, pathspec).len() ==> ends_with(
                #[trigger] scoped_files(files, pathspec)[j].path,
                ".md"@,
            ),
    decreases files.len(),
{
    if files.len() > 0 {
        let rest = files.drop_last();
        assert forall|k: int| 0 <= k < rest.len() implies {
            let st = #[trigger] rest[k].status;
            st == "added"@ || st == "modified"@ || st == "deleted"@
        } by {
            assert(rest[k] == files[k]);
        }
        lemma_scoped_files_labelled(rest, pathspec);
        assert(files.last() == files[files.len() - 1]);
        let r = scoped_files(files, pathspec);
        let rr = scoped_files(rest, pathspec);
        assert forall|j: int| 0 <= j < r.len() implies ends_with(#[trigger] r[j].path, ".md"@) && {
            let st = r[j].status;
            st == "added"@ || st == "modified"@ || st == "deleted"@
        } by {
            if j < rr.len() {
                assert(r[j] == rr[j]);
            }
        }
    }
}

/// The state of the log reader holds only labelled files.
pub open spec fn fold_labelled(st: (Seq<PulseCommitView>, Option<PulseCommitView>)) -> bool {
    &&& forall|i: int| 0 <= i < st.0.len() ==> labelled(#[trigger] st.0[i].files)
    &&& (st.1 matches Some(c) ==> labelled(c.files))
}

proof fn lemma_file_change_labelled(line: Seq<char>)
    ensures
        file_change(line) matches Some(f) ==> (f.status == "added"@ || f.status == "modified"@
            || f.status == "deleted"@),
{
}

proof fn lemma_pulse_fold_labelled(ls: Seq<Seq<char>>, base: Option<Seq<char>>)
    ensures
        fold_labelled(pulse_fold(ls, base)),
    decreases ls.len(),
{
    if ls.len() > 0 {
        lemma_pulse_fold_labelled(ls.drop_last(), base);
        let st = pulse_fold(ls.drop_last(), base);
        let line = ls.last();
        lemma_file_change_labelled(line);
        if line.len() == 0 {
        } else if is_commit_header(line) {
            let done = flush(st.0, st.1);
            assert forall|i: int| 0 <= i < done.len() implies labelled(#[trigger] done[i].files) by {
                if i < st.0.len() {
                    assert(done[i] == st.0[i]);
                }
            }
            match header_commit(line, base) {
                Some(c) => {
                    assert(c.files.len() == 0);
                },
                None => {},
            }
        } else {
            match st.1 {
                Some(c) => {
                    let n = with_file(c, line);
                    assert forall|k: int| 0 <= k < n.files.len() implies {
                        let s = #[trigger] n.files[k].status;
                        s == "added"@ || s == "modified"@ || s == "deleted"@
                    } by {
                        if k < c.files.len() {
                            match file_change(line) {
                                Some(f) => assert(n.files[k] == c.files[k]),
                                None => {},
                            }
                        }
                    }
                },
                None => {},
            }
        }
    }
}

/// The feed lists only commits that changed Markdown notes of the vault: each
/// listed commit has a note, and each listed note is a `.md` path of the vault
/// titled after its path.
pub proof fn law_feed_lists_vault_notes(commits: Seq<PulseCommitView>, pathspec: Seq<char>, i: int, j: int)
    requires
        0 <= i < scoped_pulse(commits, pathspec).len(),
    ensures
        scoped_pulse(commits, pathspec)[i].files.len() > 0,
        0 <= j < scoped_pulse(commits, pathspec)[i].files.len() ==> vault_note(
            scoped_pulse(commits, pathspec)[i].files[j],
            pathspec,
        ),
    decreases commits.len(),
{
    let rest = scoped_pulse(commits.drop_last(), pathspec);
    if i < rest.len() {
        law_feed_lists_vault_notes(commits.drop_last(), pathspec, i, j);
    } else {
        let c = commits.last();
        lemma_scoped_files_md(c.files, pathspec);
    }
}

/// A listed note of the feed: a `.md` path that some repository path maps to
/// in the vault, titled after that path.
pub open spec fn vault_note(f: PulseFileView, pathspec: Seq<char>) -> bool {
    &&& ends_with(f.path, ".md"@)
    &&& f.title == title_of(f.path)
    &&& exists|q: Seq<char>| vault_relative(pathspec, q) == Some(f.path)
}

proof fn lemma_scoped_files_md(files: Seq<PulseFileView>, pathspec: Seq<char>)
    ensures
        forall|j: int|
            0 <= j < scoped_files(files, pathspec).len() ==> vault_note(
                #[trigger] scoped_files(files, pathspec)[j],
                pathspec,
            ),
    decreases files.len(),
{
    if files.len() > 0 {
        let rest = files.drop_last();
        lemma_scoped_files_md(rest, pathspec);
        let r = scoped_files(files, pathspec);
        let rr = scoped_files(rest, pathspec);
        let q = files.last().path;
        assert forall|j: int| 0 <= j < r.len() implies vault_note(#[trigger] r[j], pathspec) by {
            if j < rr.len() {
                assert(r[j] == rr[j]);
            } else {
                assert(vault_relative(pathspec, q) == Some(r[j].path));
            }
        }
    }
}

proof fn lemma_scoped_pulse_labelled(commits: Seq<PulseCommitView>, pathspec: Seq<char>)
    requires
        forall|i: int| 0 <= i < commits.len() ==> labelled(#[trigger] commits[i].files),
    ensures
        forall|i: int|
            0 <= i < scoped_pulse(commits, pathspec).len() ==> {
                let c = #[trigger] scoped_pulse(commits, pathspec)[i];
                &&& labelled(c.files)
                &&& c.added == count_status(c.files, "added"@)
                &&& c.modified == count_status(c.files, "modified"@)
                &&& c.deleted == count_status(c.files, "deleted"@)
            },
    decreases commits.len(),
{
    if commits.len() > 0 {
        let init = commits.drop_last();
        assert forall|i: int| 0 <= i < init.len() implies labelled(#[trigger] init[i].files) by {
            assert(init[i] == commits[i]);
        }
        lemma_scoped_pulse_labelled(init, pathspec);
        let c = commits.last();
        assert(c == commits[commits.len() - 1]);
        lemma_scoped_files_labelled(c.files, pathspec);
        let r = scoped_pulse(commits, pathspec);
        let rr = scoped_pulse(init, pathspec);
        assert forall|i: int| 0 <= i < r.len() implies {
            let d = #[trigger] r[i];
            &&& labelled(d.files)
            &&& d.added == count_status(d.files, "added"@)
            &&& d.modified == count_status(d.files, "modified"@)
            &&& d.deleted == count_status(d.files, "deleted"@)
        } by {
            if i < rr.len() {
                assert(r[i] == rr[i]);
            }
        }
    }
}

/// Every note change read from a log carries one of the labels `added`,
/// `modified` or `deleted`, in the finished commits and in the one being read.
pub proof fn law_log_changes_are_labelled(ls: Seq<Seq<char>>, base: Option<Seq<char>>)
    ensures
        fold_labelled(pulse_fold(ls, base)),
{
    lemma_pulse_fold_labelled(ls, base);
}

/// The activity feed read from a log, restricted to the vault: each listed
/// commit has notes; each note is a `.md` path of the vault titled after its
/// path and labelled `added`, `modified` or `deleted`; the commit's `added`,
/// `modified` and `deleted` counts are the numbers of its notes with each label,
/// and together they count all its notes.
pub proof fn law_feed_entries(stdout: Seq<char>, base: Option<Seq<char>>, pathspec: Seq<char>, i: int, j: int)
    requires
        0 <= i < scoped_pulse(parse_pulse(stdout, base), pathspec).len(),
    ensures
        ({
            let c = scoped_pulse(parse_pulse(stdout, base), pathspec)[i];
            &&& c.files.len() > 0
            &&& c.added == count_status(c.files, "added"@)
            &&& c.modified == count_status(c.files, "modified"@)
            &&& c.deleted == count_status(c.files, "deleted"@)
            &&& c.added + c.modified + c.deleted == c.files.len()
            &&& labelled(c.files)
            &&& (0 <= j < c.files.len() ==> vault_note(c.files[j], pathspec))
        }),
{
    let ls = lines(stdout);
    lemma_pulse_fold_labelled(ls, base);
    let st = pulse_fold(ls, base);
    let commits = parse_pulse(stdout, base);
    assert forall|k: int| 0 <= k < commits.len() implies labelled(#[trigger] commits[k].files) by {
        if k < st.0.len() {
            assert(commits[k] == st.0[k]);
        }
    }
    lemma_scoped_pulse_labelled(commits, pathspec);
    law_feed_lists_vault_notes(commits, pathspec, i, j);
    let c = scoped_pulse(commits, pathspec)[i];
    lemma_counts_add_up(c.files);
}

/// The header line `%H|%h|%s|%aI` of a commit in the log: hash, short hash and
/// subject (none holding `|`), then the date.
pub open spec fn header_line(hash: Seq<char>, short: Seq<char>, subject: Seq<char>, date: Seq<char>) -> Seq<char> {
    hash + seq!['|'] + short + seq!['|'] + subject + seq!['|'] + date
}

/// A feed commit is read field by field from its header line: the hash is the
/// first field (`%H`), the short hash the second (`%h`), the message the third,
/// the date the Unix time of the rest (0 when it is no RFC 3339 date); its
/// GitHub page is the base followed by `/commit/` and its own hash; it starts
/// with no notes.
pub proof fn law_feed_header_fields(
    hash: Seq<char>,
    short: Seq<char>,
    subject: Seq<char>,
    date: Seq<char>,
    base: Option<Seq<char>>,
)
    requires
        !hash.contains('|'),
        !short.contains('|'),
        !subject.contains('|'),
    ensures
        header_commit(header_line(hash, short, subject, date), base) == Some(
            PulseCommitView {
                hash,
                short_hash: short,
                message: subject,
                date: date_or_zero(rfc3339_timestamp(date)),
                github_url: match base {
                    Some(b) => Some(b + "/commit/"@ + hash),
                    None => None,
                },
                files: seq![],
                added: 0,
                modified: 0,
                deleted: 0,
            },
        ),
{
    let bar = seq!['|'];
    let r2 = subject + bar + date;
    let r1 = short + bar + r2;
    let line = header_line(hash, short, subject, date);
    assert(line =~= hash + bar + r1);
    crate::text::lemma_splitn_field(hash, r1, 4, '|');
    crate::text::lemma_splitn_field(short, r2, 3, '|');
    crate::text::lemma_splitn_field(subject, date, 2, '|');
    assert(splitn_char(line, 4, '|') =~= seq![hash, short, subject, date]);
}

/// Every commit has the GitHub page its own hash names.
pub open spec fn pages_name_commits(commits: Seq<PulseCommitView>, base: Option<Seq<char>>) -> bool {
    forall|i: int|
        0 <= i < commits.len() ==> (#[trigger] commits[i]).github_url == match base {
            Some(b) => Some(b + "/commit/"@ + commits[i].hash),
            None => None,
        }
}

proof fn lemma_fold_pages(ls: Seq<Seq<char>>, base: Option<Seq<char>>)
    ensures
        pages_name_commits(pulse_fold(ls, base).0, base),
        pulse_fold(ls, base).1 matches Some(c) ==> pages_name_commits(seq![c], base),
    decreases ls.len(),
{
    if ls.len() > 0 {
        lemma_fold_pages(ls.drop_last(), base);
        let st = pulse_fold(ls.drop_last(), base);
        let line = ls.last();
        if line.len() > 0 && is_commit_header(line) {
            let done = flush(st.0, st.1);
            assert forall|i: int| 0 <= i < done.len() implies (#[trigger] done[i]).github_url == match base {
                Some(b) => Some(b + "/commit/"@ + done[i].hash),
                None => None,
            } by {
                if i < st.0.len() {
                    assert(done[i] == st.0[i]);
                } else {
                    let c = st.1->0;
                    assert(seq![c][0] == c);
                }
            }
            match header_commit(line, base) {
                Some(c) => {
                    assert(seq![c][0] == c);
                },
                None => {},
            }
        } else if line.len() > 0 {
            match st.1 {
                Some(c) => {
                    assert(seq![c][0] == c);
                    let n = with_file(c, line);
                    assert(seq![n][0] == n);
                },
                None => {},
            }
        }
    }
}

/// In the feed, read from any log and restricted to the vault, each commit's
/// GitHub page ends in the commit's own hash: it is the base, `/commit/` and
/// the hash; without a base there is none.
pub proof fn law_feed_pages_name_their_commit(stdout: Seq<char>, base: Option<Seq<char>>, pathspec: Seq<char>)
    ensures
        pages_name_commits(parse_pulse(stdout, base), base),
        pages_name_commits(scoped_pulse(parse_pulse(stdout, base), pathspec), base),
{
    let ls = lines(stdout);
    lemma_fold_pages(ls, base);
    let st = pulse_fold(ls, base);
    let commits = parse_pulse(stdout, base);
    assert forall|i: int| 0 <= i < commits.len() implies (#[trigger] commits[i]).github_url == match base {
        Some(b) => Some(b + "/commit/"@ + commits[i].hash),
        None => None,
    } by {
        if i < st.0.len() {
            assert(commits[i] == st.0[i]);
        } else {
            let c = st.1->0;
            assert(seq![c][0] == c);
        }
    }
    lemma_scoped_pages(commits, base, pathspec);
}

proof fn lemma_scoped_pages(commits: Seq<PulseCommitView>, base: Option<Seq<char>>, pathspec: Seq<char>)
    requires
        pages_name_commits(commits, base),
    ensures
        pages_name_commits(scoped_pulse(commits, pathspec), base),
    decreases commits.len(),
{
    if commits.len() > 0 {
        let init = commits.drop_last();
        assert(pages_name_commits(init, base)) by {
            assert forall|i: int| 0 <= i < init.len() implies (#[trigger] init[i]).github_url == match base {
                Some(b) => Some(b + "/commit/"@ + init[i].hash),
                None => None,
            } by {
                assert(init[i] == commits[i]);
            }
        }
        lemma_scoped_pages(init, base, pathspec);
        assert(commits.last() == commits[commits.len() - 1]);
        let r = scoped_pulse(commits, pathspec);
        let rr = scoped_pulse(init, pathspec);
        assert forall|i: int| 0 <= i < r.len() implies (#[trigger] r[i]).github_url == match base {
            Some(b) => Some(b + "/commit/"@ + r[i].hash),
            None => None,
        } by {
            if i < rr.len() {
                assert(r[i] == rr[i]);
            }
        }
    }
}

/// A note change of the log, `<code>\t<path>`, is read as its path (trimmed)
/// labelled by its code: `A` added, `D` deleted, any other code modified; its
/// title is the path's title.
pub proof fn law_feed_change_line(code: Seq<char>, path: Seq<char>)
    requires
        !code.contains('\t'),
    ensures
        file_change(code + seq!['\t'] + path) == Some(
            PulseFileView {
                path: trim(path),
                status: if trim(code) == seq!['A'] {
                    "added"@
                } else if trim(code) == seq!['D'] {
                    "deleted"@
                } else {
                    "modified"@
                },
                title: title_of(trim(path)),
            },
        ),
{
    crate::text::lemma_splitn_field(code, path, 2, '\t');
    assert(splitn_char(code + seq!['\t'] + path, 2, '\t') =~= seq![code, path]);
}

/// The last commit of the vault is read from its line `%H|%h`: the full hash
/// is the first field and the short hash the second.
pub proof fn law_last_commit_fields(hash: Seq<char>, short: Seq<char>)
    requires
        hash.len() > 0,
        !hash.contains('|'),
        !crate::text::is_whitespace(hash[0]),
        short.len() > 0,
        !crate::text::is_whitespace(short.last()),
    ensures
        last_commit_line(hash + seq!['|'] + short) == Some((hash, short)),
{
    let line = hash + seq!['|'] + short;
    assert(line[0] == hash[0]);
    assert(line.last() == short.last());
    crate::text::lemma_trim_fixed(line);
    crate::text::lemma_splitn_field(hash, short, 2, '|');
    assert(splitn_char(line, 2, '|') =~= seq![hash, short]);
}

/// A note's title is its file name without `.md`, dashes read as spaces,
/// whatever folders it sits in.
pub proof fn law_note_titles(folder: Seq<char>, name: Seq<char>)
    requires
        !name.contains('/'),
    ensures
        title_of(name + ".md"@) == replace_char(name, '-', seq![' ']),
        title_of(folder + seq!['/'] + name + ".md"@) == replace_char(name, '-', seq![' ']),
{
    reveal_strlit(".md");
    let file = name + ".md"@;
    assert(!file.contains('/')) by {
        assert forall|k: int| 0 <= k < file.len() implies file[k] != '/' by {
            if k < name.len() {
                assert(file[k] == name[k]);
                if file[k] == '/' {
                    assert(name.contains('/'));
                }
            }
        }
    }
    assert forall|k: int| 0 <= k < file.len() && k > -1 implies file[k] != '/' by {
        if file[k] == '/' {
            assert(file.contains('/'));
        }
    }
    crate::text::lemma_rfind_char_is(file, '/', -1);
    assert(file.subrange(file.len() - 3, file.len() as int) =~= ".md"@);
    assert(file.subrange(0, file.len() - 3) =~= name);
    let path = folder + seq!['/'] + file;
    assert(path =~= folder + seq!['/'] + name + ".md"@);
    assert forall|k: int| 0 <= k < path.len() && k > folder.len() implies path[k] != '/' by {
        assert(path[k] == file[k - folder.len() - 1]);
        if file[k - folder.len() - 1] == '/' {
            assert(file.contains('/'));
        }
    }
    assert(path[folder.len() as int] == '/');
    crate::text::lemma_rfind_char_is(path, '/', folder.len() as int);
    assert(path.subrange(folder.len() + 1int, path.len() as int) =~= file);
}

} // verus!
