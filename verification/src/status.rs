//! Uncommitted changes of the vault's notes, with optional line statistics,
//! and discarding the changes of one file.
use vstd::prelude::*;
use crate::command::{push_arg, push_lit, texts, CommandOutput};
use crate::text::{
    decimal,
    boundary_chars, boundary_chars_of, utf8_len, utf8_len_below,
    chars_of, contains, lines, lines_of, parse_unsigned, parse_unsigned_chars,
    prefixed, push_all, seq_eq, slice_of, split, split_char, splitn, splitn_char, string_from,
    string_of, trim, trim_chars, views, ends_with, starts_with, has_suffix,
};
use crate::workspace::{vault_relative, GitWorkspace};

verus! {

/// How a file differs from the last commit.
#[derive(PartialEq, Eq, Structural, Clone, Copy)]
pub enum FileChangeStatus {
    Modified,
    Added,
    Deleted,
    Untracked,
    Renamed,
}

/// The change a porcelain status code reports.
pub open spec fn status_of_code(code: Seq<char>) -> FileChangeStatus {
    let t = trim(code);
    if t == seq!['A'] {
        FileChangeStatus::Added
    } else if t == seq!['D'] {
        FileChangeStatus::Deleted
    } else if t == seq!['?', '?'] {
        FileChangeStatus::Untracked
    } else if t == seq!['R'] || t == seq!['R', 'M'] {
        FileChangeStatus::Renamed
    } else {
        FileChangeStatus::Modified
    }
}

pub open spec fn status_label(s: FileChangeStatus) -> Seq<char> {
    match s {
        FileChangeStatus::Added => "added"@,
        FileChangeStatus::Deleted => "deleted"@,
        FileChangeStatus::Untracked => "untracked"@,
        FileChangeStatus::Renamed => "renamed"@,
        FileChangeStatus::Modified => "modified"@,
    }
}

fn is_chars(v: &[char], a: char) -> (r: bool)
    ensures
        r == (v@ == seq![a]),
{
    let r = v.len() == 1 && v[0] == a;
    proof {
        if v@.len() == 1 && v@[0] == a {
            assert(v@ =~= seq![a]);
        }
    }
    r
}

fn is_chars2(v: &[char], a: char, b: char) -> (r: bool)
    ensures
        r == (v@ == seq![a, b]),
{
    let r = v.len() == 2 && v[0] == a && v[1] == b;
    proof {
        if v@.len() == 2 && v@[0] == a && v@[1] == b {
            assert(v@ =~= seq![a, b]);
        }
    }
    r
}

impl FileChangeStatus {
    pub fn from_code(code: &str) -> (r: FileChangeStatus)
        ensures
            r == status_of_code(code@),
    {
        let t = trim_chars(chars_of(code).as_slice());
        let t = t.as_slice();
        if is_chars(t, 'A') {
            FileChangeStatus::Added
        } else if is_chars(t, 'D') {
            FileChangeStatus::Deleted
        } else if is_chars2(t, '?', '?') {
            FileChangeStatus::Untracked
        } else if is_chars(t, 'R') || is_chars2(t, 'R', 'M') {
            FileChangeStatus::Renamed
        } else {
            FileChangeStatus::Modified
        }
    }

    pub fn label(self) -> (r: String)
        ensures
            r@ == status_label(self),
    {
        match self {
            FileChangeStatus::Added => string_from("added"),
            FileChangeStatus::Deleted => string_from("deleted"),
            FileChangeStatus::Untracked => string_from("untracked"),
            FileChangeStatus::Renamed => string_from("renamed"),
            FileChangeStatus::Modified => string_from("modified"),
        }
    }
}

/// The non-empty pieces, in order.
pub open spec fn nonempty(parts: Seq<Seq<char>>) -> Seq<Seq<char>>
    decreases parts.len(),
{
    if parts.len() == 0 {
        seq![]
    } else {
        let r = nonempty(parts.drop_last());
        if parts.last().len() > 0 {
            r.push(parts.last())
        } else {
            r
        }
    }
}

/// The fields of `-z` output: NUL-separated, empty ones dropped.
pub open spec fn nul_fields(output: Seq<char>) -> Seq<Seq<char>> {
    nonempty(split_char(output, '\0'))
}

pub fn split_nul_fields(output: &str) -> (r: Vec<Vec<char>>)
    ensures
        views(r@) == nul_fields(output@),
{
    let parts = split(chars_of(output).as_slice(), '\0');
    let mut out: Vec<Vec<char>> = Vec::new();
    for i in 0..parts.len()
        invariant
            views(parts@) == split_char(output@, '\0'),
            views(out@) == nonempty(views(parts@).take(i as int)),
    {
        assert(views(parts@).take(i + 1).drop_last() =~= views(parts@).take(i as int));
        assert(views(parts@).take(i + 1).last() == parts@[i as int]@);
        if parts[i].len() > 0 {
            let p = slice_of(parts[i].as_slice(), 0, parts[i].len());
            assert(p@ =~= parts@[i as int]@);
            proof {
                crate::text::lemma_views_push(out@, p);
            }
            out.push(p);
        }
    }
    assert(views(parts@).take(parts@.len() as int) =~= views(parts@));
    out
}

/// Whether a status code has a second path field (renames and copies).
pub open spec fn has_source_path(code: Seq<char>) -> bool {
    code.contains('R') || code.contains('C')
}

pub fn status_has_source_path(code: &[char]) -> (r: bool)
    ensures
        r == has_source_path(code@),
{
    for i in 0..code.len()
        invariant
            forall|k: int| 0 <= k < i ==> code@[k] != 'R' && code@[k] != 'C',
    {
        if code[i] == 'R' || code[i] == 'C' {
            return true;
        }
    }
    false
}

/// A status entry: the two-letter code and the path after it.
pub struct StatusEntry {
    pub status_code: String,
    pub relative_path: String,
}

/// A porcelain status field `XY path`, cut at byte offsets as `&field[..2]` and
/// `&field[3..]`. A field of fewer than four bytes gives nothing.
pub open spec fn status_field(field: Seq<char>) -> Option<(Seq<char>, Seq<char>)> {
    if utf8_len(field) < 4 {
        None
    } else {
        match (boundary_chars(field, 2), boundary_chars(field, 3)) {
            (Some(a), Some(b)) => Some((field.take(a as int), field.skip(b as int))),
            _ => None,
        }
    }
}

/// Whether cutting a field into code and path falls on character boundaries
/// (the cut would panic otherwise).
pub open spec fn field_sliceable(field: Seq<char>) -> bool {
    utf8_len(field) < 4 || (boundary_chars(field, 2) is Some && boundary_chars(field, 3) is Some)
}

pub fn parse_status_field(field: &[char]) -> (r: Option<StatusEntry>)
    requires
        field_sliceable(field@),
    ensures
        match r {
            Some(e) => status_field(field@) == Some((e.status_code@, e.relative_path@)),
            None => status_field(field@) is None,
        },
{
    if utf8_len_below(field, 4) {
        return None;
    }
    let a = boundary_chars_of(field, 2);
    let b = boundary_chars_of(field, 3);
    match (a, b) {
        (Some(a), Some(b)) => {
            let code = slice_of(field, 0, a);
            let path = slice_of(field, b, field.len());
            assert(code@ =~= field@.take(a as int));
            assert(path@ =~= field@.skip(b as int));
            Some(StatusEntry { status_code: string_of(code.as_slice()), relative_path: string_of(path.as_slice()) })
        },
        _ => None,
    }
}

/// The entries of `git status --porcelain=v1 -z` fields from index `i` on: a
/// rename or copy is followed by its source path, which is skipped.
pub open spec fn status_entries_from(fields: Seq<Seq<char>>, i: int) -> Seq<(Seq<char>, Seq<char>)>
    decreases fields.len() + 1 - i,
{
    if i < 0 || i >= fields.len() {
        seq![]
    } else {
        match status_field(fields[i]) {
            None => status_entries_from(fields, i + 1),
            Some(e) => seq![e] + status_entries_from(
                fields,
                if has_source_path(e.0) {
                    i + 2
                } else {
                    i + 1
                },
            ),
        }
    }
}

pub open spec fn status_entries(output: Seq<char>) -> Seq<(Seq<char>, Seq<char>)> {
    status_entries_from(nul_fields(output), 0)
}

pub open spec fn entries_view(v: Seq<StatusEntry>) -> Seq<(Seq<char>, Seq<char>)> {
    Seq::new(v.len(), |i: int| (v[i].status_code@, v[i].relative_path@))
}

/// Whether every field that the reading of `-z` status fields cuts, from
/// index `i` on, is cut on character boundaries.
pub open spec fn fields_sliceable_from(fields: Seq<Seq<char>>, i: int) -> bool
    decreases fields.len() + 1 - i,
{
    if i < 0 || i >= fields.len() {
        true
    } else {
        field_sliceable(fields[i]) && match status_field(fields[i]) {
            None => fields_sliceable_from(fields, i + 1),
            Some(e) => fields_sliceable_from(
                fields,
                if has_source_path(e.0) {
                    i + 2
                } else {
                    i + 1
                },
            ),
        }
    }
}

/// Whether reading `git status --porcelain=v1 -z` output cuts every field on
/// character boundaries; Git's own output always does.
pub open spec fn status_sliceable(output: Seq<char>) -> bool {
    fields_sliceable_from(nul_fields(output), 0)
}

/// Tests `status_sliceable`, the condition under which status output is read.
pub fn status_output_sliceable(output: &str) -> (r: bool)
    ensures
        r == status_sliceable(output@),
{
    let fields = split_nul_fields(output);
    let ghost fs = views(fields@);
    let mut index: usize = 0;
    while index < fields.len()
        invariant
            fs == views(fields@),
            fs == nul_fields(output@),
            index <= fields@.len(),
            status_sliceable(output@) == fields_sliceable_from(fs, index as int),
        decreases fields@.len() + 2 - index,
    {
        assert(fs[index as int] == fields@[index as int]@);
        let f = fields[index].as_slice();
        let ok = utf8_len_below(f, 4) || (boundary_chars_of(f, 2).is_some() && boundary_chars_of(
            f,
            3,
        ).is_some());
        if !ok {
            return false;
        }
        match parse_status_field(f) {
            None => {
                index += 1;
            },
            Some(entry) => {
                let code = chars_of(entry.status_code.as_str());
                let skip = status_has_source_path(code.as_slice());
                let ghost spec_next: int = if skip {
                    index + 2
                } else {
                    index + 1
                };
                index = if skip && index + 1 < fields.len() {
                    index + 2
                } else {
                    index + 1
                };
                assert(fields_sliceable_from(fs, spec_next) == fields_sliceable_from(fs, index as int));
            },
        }
    }
    true
}

pub fn parse_status_output(output: &str) -> (r: Vec<StatusEntry>)
    requires
        status_sliceable(output@),
    ensures
        entries_view(r@) == status_entries(output@),
{
    let fields = split_nul_fields(output);
    let ghost fs = views(fields@);
    let mut entries: Vec<StatusEntry> = Vec::new();
    let mut index: usize = 0;
    while index < fields.len()
        invariant
            fs == views(fields@),
            fs == nul_fields(output@),
            index <= fields@.len(),
            status_entries(output@) == entries_view(entries@) + status_entries_from(fs, index as int),
            fields_sliceable_from(fs, index as int),
        decreases fields@.len() + 2 - index,
    {
        assert(fs[index as int] == fields@[index as int]@);
        match parse_status_field(fields[index].as_slice()) {
            None => {
                index += 1;
            },
            Some(entry) => {
                let code = chars_of(entry.status_code.as_str());
                let skip = status_has_source_path(code.as_slice());
                let ghost e = (entry.status_code@, entry.relative_path@);
                let ghost before = entries@;
                entries.push(entry);
                assert(entries_view(entries@) =~= entries_view(before).push(e));
                let ghost spec_next: int = if skip {
                    index + 2
                } else {
                    index + 1
                };
                index = if skip && index + 1 < fields.len() {
                    index + 2
                } else {
                    index + 1
                };
                assert(status_entries_from(fs, spec_next) == status_entries_from(fs, index as int));
                assert(fields_sliceable_from(fs, spec_next) == fields_sliceable_from(fs, index as int));
                assert(entries_view(before) + (seq![e] + status_entries_from(fs, spec_next)) =~= entries_view(entries@) + status_entries_from(fs, index as int));
            },
        }
    }
    assert(status_entries_from(fs, index as int) =~= Seq::<(Seq<char>, Seq<char>)>::empty());
    assert(entries_view(entries@) + Seq::<(Seq<char>, Seq<char>)>::empty() =~= entries_view(entries@));
    entries
}

/// Line counts of a change; `None` where Git gave no number (binary files).
#[derive(PartialEq, Eq, Structural, Clone, Copy)]
pub struct DiffStats {
    pub added_lines: Option<usize>,
    pub deleted_lines: Option<usize>,
    pub binary: bool,
}

pub struct DiffStatsView {
    pub added: Option<nat>,
    pub deleted: Option<nat>,
    pub binary: bool,
}

pub open spec fn opt_nat(o: Option<usize>) -> Option<nat> {
    match o {
        Some(n) => Some(n as nat),
        None => None,
    }
}

impl View for DiffStats {
    type V = DiffStatsView;

    open spec fn view(&self) -> DiffStatsView {
        DiffStatsView {
            added: opt_nat(self.added_lines),
            deleted: opt_nat(self.deleted_lines),
            binary: self.binary,
        }
    }
}

pub open spec fn no_stats() -> DiffStatsView {
    DiffStatsView { added: None, deleted: None, binary: false }
}

pub fn default_stats() -> (d: DiffStats)
    ensures
        d@ == no_stats(),
{
    DiffStats { added_lines: None, deleted_lines: None, binary: false }
}

/// A numstat count: a decimal number, or nothing (`-` for binary files).
pub open spec fn numstat_count(field: Seq<char>) -> Option<nat> {
    parse_unsigned(field, usize::MAX as nat)
}

pub fn parse_numstat_field(field: &[char]) -> (r: Option<usize>)
    ensures
        opt_nat(r) == numstat_count(field@),
{
    match parse_unsigned_chars(field, usize::MAX as u64) {
        Some(n) => Some(n as usize),
        None => None,
    }
}

/// A `--numstat -z` header `added<TAB>deleted<TAB>path`; an empty path means a
/// rename whose paths follow as separate fields.
pub open spec fn numstat_header(header: Seq<char>) -> Option<(Option<Seq<char>>, DiffStatsView)> {
    let parts = splitn_char(header, 3, '\t');
    if parts.len() != 3 {
        None
    } else {
        let path = parts[2];
        Some(
            (
                if path.len() > 0 {
                    Some(path)
                } else {
                    None
                },
                DiffStatsView {
                    added: numstat_count(parts[0]),
                    deleted: numstat_count(parts[1]),
                    binary: parts[0] == seq!['-'] || parts[1] == seq!['-'],
                },
            ),
        )
    }
}

pub fn parse_numstat_header(header: &[char]) -> (r: Option<(Option<Vec<char>>, DiffStats)>)
    ensures
        match r {
            Some((p, st)) => numstat_header(header@) == Some(
                (
                    match p {
                        Some(v) => Some(v@),
                        None => None,
                    },
                    st@,
                ),
            ),
            None => numstat_header(header@) is None,
        },
{
    let parts = splitn(header, 3, '\t');
    if parts.len() != 3 {
        return None;
    }
    assert(views(parts@)[0] == parts@[0]@ && views(parts@)[1] == parts@[1]@ && views(parts@)[2]
        == parts@[2]@);
    let added_lines = parse_numstat_field(parts[0].as_slice());
    let deleted_lines = parse_numstat_field(parts[1].as_slice());
    let binary = is_chars(parts[0].as_slice(), '-') || is_chars(parts[1].as_slice(), '-');
    let path = if parts[2].len() > 0 {
        Some(slice_of(parts[2].as_slice(), 0, parts[2].len()))
    } else {
        None
    };
    proof {
        assert(parts@[2]@.subrange(0, parts@[2]@.len() as int) =~= parts@[2]@);
    }
    Some((path, DiffStats { added_lines, deleted_lines, binary }))
}

/// The (path, stats) records of `-z` numstat fields from index `i` on.
pub open spec fn numstat_entries_from(fields: Seq<Seq<char>>, i: int) -> Seq<(Seq<char>, DiffStatsView)>
    decreases fields.len() + 1 - i,
{
    if i < 0 || i >= fields.len() {
        seq![]
    } else {
        match numstat_header(fields[i]) {
            None => numstat_entries_from(fields, i + 1),
            Some((Some(p), st)) => seq![(p, st)] + numstat_entries_from(fields, i + 1),
            Some((None, st)) => if i + 2 < fields.len() {
                seq![(fields[i + 2], st)] + numstat_entries_from(fields, i + 3)
            } else {
                numstat_entries_from(fields, i + 1)
            },
        }
    }
}

/// The stats recorded for a path: the last record wins, no record gives none.
pub open spec fn stats_lookup(entries: Seq<(Seq<char>, DiffStatsView)>, path: Seq<char>) -> DiffStatsView
    decreases entries.len(),
{
    if entries.len() == 0 {
        no_stats()
    } else if entries.last().0 == path {
        entries.last().1
    } else {
        stats_lookup(entries.drop_last(), path)
    }
}

/// Line statistics per repository-relative path, in the order Git reported them.
pub struct DiffStatsTable {
    pub entries: Vec<(String, DiffStats)>,
}

pub open spec fn table_view(t: Seq<(String, DiffStats)>) -> Seq<(Seq<char>, DiffStatsView)> {
    Seq::new(t.len(), |i: int| (t[i].0@, t[i].1@))
}

pub fn empty_table() -> (t: DiffStatsTable)
    ensures
        t.entries@.len() == 0,
{
    DiffStatsTable { entries: Vec::new() }
}

pub fn parse_numstat_output(output: &str) -> (r: DiffStatsTable)
    ensures
        table_view(r.entries@) == numstat_entries_from(nul_fields(output@), 0),
{
    let fields = split_nul_fields(output);
    let ghost fs = views(fields@);
    let mut entries: Vec<(String, DiffStats)> = Vec::new();
    let mut index: usize = 0;
    while index < fields.len()
        invariant
            fs == views(fields@),
            index <= fields@.len(),
            numstat_entries_from(fs, 0) == table_view(entries@) + numstat_entries_from(fs, index as int),
        decreases fields@.len() - index,
    {
        assert(fs[index as int] == fields@[index as int]@);
        let ghost before = entries@;
        match parse_numstat_header(fields[index].as_slice()) {
            None => {
                index += 1;
            },
            Some((Some(path), st)) => {
                let key = string_of(path.as_slice());
                entries.push((key, st));
                assert(table_view(entries@) =~= table_view(before).push((path@, st@)));
                assert(table_view(before) + numstat_entries_from(fs, index as int) =~= table_view(entries@) + numstat_entries_from(fs, index + 1));
                index += 1;
            },
            Some((None, st)) => {
                if index + 1 < fields.len() && index + 2 < fields.len() {
                    assert(fs[index + 2] == fields@[index + 2]@);
                    let key = string_of(fields[index + 2].as_slice());
                    entries.push((key, st));
                    assert(table_view(entries@) =~= table_view(before).push((fs[index + 2], st@)));
                    assert(table_view(before) + numstat_entries_from(fs, index as int) =~= table_view(entries@) + numstat_entries_from(fs, index + 3));
                    index += 3;
                } else {
                    index += 1;
                }
            },
        }
    }
    assert(table_view(entries@) + numstat_entries_from(fs, index as int) =~= table_view(entries@));
    DiffStatsTable { entries }
}

impl DiffStatsTable {
    /// The stats of a repository-relative path (last record wins; none if absent).
    pub fn get(&self, path: &str) -> (r: DiffStats)
        ensures
            r@ == stats_lookup(table_view(self.entries@), path@),
    {
        let key = string_from(path);
        let mut i = self.entries.len();
        assert(table_view(self.entries@).take(i as int) =~= table_view(self.entries@));
        while i > 0
            invariant
                i <= self.entries@.len(),
                key@ == path@,
                stats_lookup(table_view(self.entries@), path@) == stats_lookup(
                    table_view(self.entries@).take(i as int),
                    path@,
                ),
            decreases i,
        {
            assert(table_view(self.entries@).take(i as int).last() == (self.entries@[i - 1].0@, self.entries@[i - 1].1@));
            assert(table_view(self.entries@).take(i as int).drop_last() =~= table_view(self.entries@).take(i - 1));
            if self.entries[i - 1].0 == key {
                return self.entries[i - 1].1;
            }
            i -= 1;
        }
        assert(table_view(self.entries@).take(0) =~= Seq::<(Seq<char>, DiffStatsView)>::empty());
        default_stats()
    }
}

/// What `git status` for the vault came to: its output, or the error to report.
pub fn status_output(outcome: Result<CommandOutput, String>) -> (r: Result<String, String>)
    ensures
        match outcome {
            Err(e) => r matches Err(m) && m@ == "Failed to run git status: "@ + e@,
            Ok(o) => if o.success {
                r matches Ok(s) && s@ == o.stdout@
            } else {
                r matches Err(m) && m@ == "git status failed: "@ + trim(o.stderr@)
            },
        },
{
    match outcome {
        Err(e) => Err(prefixed("Failed to run git status: ", e.as_str())),
        Ok(o) => if o.success {
            Ok(o.stdout)
        } else {
            let t = crate::text::trim_string(o.stderr.as_str());
            Err(prefixed("git status failed: ", t.as_str()))
        },
    }
}

/// Arguments of the vault's status: every untracked file, NUL-separated.
pub fn status_args(ws: &GitWorkspace) -> (r: Vec<String>)
    ensures
        texts(r@) == seq![
            "status"@,
            "--porcelain=v1"@,
            "-z"@,
            "--untracked-files=all"@,
            "--"@,
            ws@.pathspec_arg(),
        ],
{
    let mut r: Vec<String> = Vec::new();
    push_lit(&mut r, "status");
    push_lit(&mut r, "--porcelain=v1");
    push_lit(&mut r, "-z");
    push_lit(&mut r, "--untracked-files=all");
    push_lit(&mut r, "--");
    push_arg(&mut r, ws.vault_pathspec());
    assert(texts(r@) =~= seq![
        "status"@,
        "--porcelain=v1"@,
        "-z"@,
        "--untracked-files=all"@,
        "--"@,
        ws@.pathspec_arg(),
    ]);
    r
}

/// Whether the repository has a commit, from `git rev-parse --verify HEAD`.
pub fn repo_has_head(outcome: Result<CommandOutput, String>) -> (r: Result<bool, String>)
    ensures
        match outcome {
            Err(e) => r matches Err(m) && m@ == "Failed to run git rev-parse: "@ + e@,
            Ok(o) => r == Ok::<bool, String>(o.success),
        },
{
    match outcome {
        Err(e) => Err(prefixed("Failed to run git rev-parse: ", e.as_str())),
        Ok(o) => Ok(o.success),
    }
}

/// Arguments of the vault's line statistics against `HEAD`.
pub fn numstat_args(ws: &GitWorkspace) -> (r: Vec<String>)
    ensures
        texts(r@) == seq![
            "diff"@,
            "--numstat"@,
            "-z"@,
            "--find-renames"@,
            "HEAD"@,
            "--"@,
            ws@.pathspec_arg(),
        ],
{
    let mut r: Vec<String> = Vec::new();
    push_lit(&mut r, "diff");
    push_lit(&mut r, "--numstat");
    push_lit(&mut r, "-z");
    push_lit(&mut r, "--find-renames");
    push_lit(&mut r, "HEAD");
    push_lit(&mut r, "--");
    push_arg(&mut r, ws.vault_pathspec());
    assert(texts(r@) =~= seq![
        "diff"@,
        "--numstat"@,
        "-z"@,
        "--find-renames"@,
        "HEAD"@,
        "--"@,
        ws@.pathspec_arg(),
    ]);
    r
}

/// The line statistics from `git diff --numstat`.
pub fn load_diff_stats(outcome: Result<CommandOutput, String>) -> (r: Result<DiffStatsTable, String>)
    ensures
        match outcome {
            Err(e) => r matches Err(m) && m@ == "Failed to run git diff --numstat: "@ + e@,
            Ok(o) => if o.success {
                r matches Ok(t) && table_view(t.entries@) == numstat_entries_from(
                    nul_fields(o.stdout@),
                    0,
                )
            } else {
                r matches Err(m) && m@ == "git diff --numstat failed: "@ + trim(o.stderr@)
            },
        },
{
    match outcome {
        Err(e) => Err(prefixed("Failed to run git diff --numstat: ", e.as_str())),
        Ok(o) => if o.success {
            Ok(parse_numstat_output(o.stdout.as_str()))
        } else {
            let t = crate::text::trim_string(o.stderr.as_str());
            Err(prefixed("git diff --numstat failed: ", t.as_str()))
        },
    }
}

/// Number of lines of a file's text, as `str::lines` counts them.
pub fn count_lines(content: &str) -> (n: usize)
    ensures
        n as nat == lines(content@).len(),
{
    let ls = lines_of(chars_of(content).as_slice());
    ls.len()
}

/// A markdown change of the vault: its vault-relative path, its path in the
/// repository and its kind.
pub struct ModifiedEntry {
    pub relative_path: String,
    pub repo_path: String,
    pub status: FileChangeStatus,
}

/// The vault's Markdown changes among status entries, with vault-relative paths.
pub open spec fn markdown_changes(pathspec: Seq<char>, entries: Seq<(Seq<char>, Seq<char>)>) -> Seq<
    (Seq<char>, Seq<char>, FileChangeStatus),
>
    decreases entries.len(),
{
    if entries.len() == 0 {
        seq![]
    } else {
        let rest = markdown_changes(pathspec, entries.drop_last());
        let (code, repo_path) = entries.last();
        match vault_relative(pathspec, repo_path) {
            Some(rel) => if ends_with(rel, ".md"@) {
                rest.push((rel, repo_path, status_of_code(code)))
            } else {
                rest
            },
            None => rest,
        }
    }
}

pub open spec fn modified_entries_view(v: Seq<ModifiedEntry>) -> Seq<
    (Seq<char>, Seq<char>, FileChangeStatus),
> {
    Seq::new(v.len(), |i: int| (v[i].relative_path@, v[i].repo_path@, v[i].status))
}

/// The vault's Markdown changes in `git status --porcelain=v1 -z` output.
pub fn modified_entries(ws: &GitWorkspace, status_stdout: &str) -> (r: Vec<ModifiedEntry>)
    requires
        status_sliceable(status_stdout@),
    ensures
        modified_entries_view(r@) == markdown_changes(ws@.pathspec, status_entries(status_stdout@)),
{
    let entries = parse_status_output(status_stdout);
    let md = chars_of(".md");
    proof {
        reveal_strlit(".md");
    }
    let mut out: Vec<ModifiedEntry> = Vec::new();
    for i in 0..entries.len()
        invariant
            md@ == ".md"@,
            entries_view(entries@) == status_entries(status_stdout@),
            modified_entries_view(out@) == markdown_changes(
                ws@.pathspec,
                entries_view(entries@).take(i as int),
            ),
    {
        assert(entries_view(entries@).take(i + 1).drop_last() =~= entries_view(entries@).take(i as int));
        assert(entries_view(entries@).take(i + 1).last() == (entries@[i as int].status_code@, entries@[i as int].relative_path@));
        let e = &entries[i];
        match ws.vault_relative_path(e.relative_path.as_str()) {
            Some(rel) => {
                if has_suffix(chars_of(rel.as_str()).as_slice(), md.as_slice()) {
                    let status = FileChangeStatus::from_code(e.status_code.as_str());
                    let m = ModifiedEntry { relative_path: rel, repo_path: e.relative_path.clone(), status };
                    let ghost before = out@;
                    out.push(m);
                    assert(modified_entries_view(out@) =~= modified_entries_view(before).push((m.relative_path@, m.repo_path@, m.status)));
                }
            },
            None => {},
        }
    }
    assert(entries_view(entries@).take(entries@.len() as int) =~= entries_view(entries@));
    out
}

/// The statistics reported for one change: none unless asked for; for an
/// untracked file, its line count (if it could be read) as added lines; else
/// what `git diff --numstat` recorded for its repository path.
pub open spec fn resolved_stats(
    include_stats: bool,
    status: FileChangeStatus,
    repo_path: Seq<char>,
    table: Seq<(Seq<char>, DiffStatsView)>,
    worktree_lines: Option<nat>,
) -> DiffStatsView {
    if !include_stats {
        no_stats()
    } else if status == FileChangeStatus::Untracked {
        DiffStatsView { added: worktree_lines, deleted: None, binary: false }
    } else {
        stats_lookup(table, repo_path)
    }
}

pub fn resolve_diff_stats(
    include_stats: bool,
    status: FileChangeStatus,
    repo_path: &str,
    table: &DiffStatsTable,
    worktree_lines: Option<usize>,
) -> (r: DiffStats)
    ensures
        r@ == resolved_stats(include_stats, status, repo_path@, table_view(table.entries@), opt_nat(worktree_lines)),
{
    if !include_stats {
        return default_stats();
    }
    if status == FileChangeStatus::Untracked {
        return DiffStats { added_lines: worktree_lines, deleted_lines: None, binary: false };
    }
    table.get(repo_path)
}

/// A changed note as listed to the user.
pub struct ModifiedFile {
    pub path: String,
    pub relative_path: String,
    pub status: String,
    pub added_lines: Option<usize>,
    pub deleted_lines: Option<usize>,
    pub binary: bool,
}

/// `Path::join` of a relative path onto a root.
pub open spec fn joined_path(root: Seq<char>, rel: Seq<char>) -> Seq<char> {
    if root.len() == 0 {
        rel
    } else if ends_with(root, "/"@) {
        root + rel
    } else {
        root + "/"@ + rel
    }
}

pub fn join_path(root: &str, rel: &str) -> (r: String)
    ensures
        r@ == joined_path(root@, rel@),
{
    let mut v = chars_of(root);
    proof {
        reveal_strlit("/");
    }
    if v.len() == 0 {
        return string_from(rel);
    }
    if v[v.len() - 1] != '/' {
        assert(root@.subrange(root@.len() - 1, root@.len() as int)[0] == root@[root@.len() - 1]);
        assert(!ends_with(root@, "/"@));
        v.push('/');
        assert(v@ =~= root@ + "/"@);
    } else {
        assert(root@.subrange(root@.len() - 1, root@.len() as int) =~= "/"@);
    }
    push_all(&mut v, chars_of(rel).as_slice());
    string_of(v.as_slice())
}

/// The listing of a change.
pub fn modified_file(ws: &GitWorkspace, entry: &ModifiedEntry, stats: DiffStats) -> (r: ModifiedFile)
    ensures
        r.path@ == joined_path(ws@.vault_root, entry.relative_path@),
        r.relative_path@ == entry.relative_path@,
        r.status@ == status_label(entry.status),
        r.added_lines == stats.added_lines,
        r.deleted_lines == stats.deleted_lines,
        r.binary == stats.binary,
{
    let root = ws.vault_root();
    ModifiedFile {
        path: join_path(root.as_str(), entry.relative_path.as_str()),
        relative_path: entry.relative_path.clone(),
        status: entry.status.label(),
        added_lines: stats.added_lines,
        deleted_lines: stats.deleted_lines,
        binary: stats.binary,
    }
}

/// The vault's changed notes, one listing per change, in status order.
/// `table` holds the numstat records (used when `include_stats`), and
/// `worktree_lines[i]` the line count read for change `i` when it is an
/// untracked file.
pub fn modified_files(
    ws: &GitWorkspace,
    entries: &Vec<ModifiedEntry>,
    include_stats: bool,
    table: &DiffStatsTable,
    worktree_lines: &Vec<Option<usize>>,
) -> (r: Vec<ModifiedFile>)
    requires
        worktree_lines@.len() == entries@.len(),
    ensures
        r@.len() == entries@.len(),
        forall|i: int|
            0 <= i < entries@.len() ==> {
                let e = #[trigger] entries@[i];
                let st = resolved_stats(
                    include_stats,
                    e.status,
                    e.repo_path@,
                    table_view(table.entries@),
                    opt_nat(worktree_lines@[i]),
                );
                &&& r@[i].path@ == joined_path(ws@.vault_root, e.relative_path@)
                &&& r@[i].relative_path@ == e.relative_path@
                &&& r@[i].status@ == status_label(e.status)
                &&& opt_nat(r@[i].added_lines) == st.added
                &&& opt_nat(r@[i].deleted_lines) == st.deleted
                &&& r@[i].binary == st.binary
            },
{
    let mut out: Vec<ModifiedFile> = Vec::new();
    for i in 0..entries.len()
        invariant
            worktree_lines@.len() == entries@.len(),
            out@.len() == i,
            forall|k: int|
                0 <= k < i ==> {
                    let e = #[trigger] entries@[k];
                    let st = resolved_stats(
                        include_stats,
                        e.status,
                        e.repo_path@,
                        table_view(table.entries@),
                        opt_nat(worktree_lines@[k]),
                    );
                    &&& out@[k].path@ == joined_path(ws@.vault_root, e.relative_path@)
                    &&& out@[k].relative_path@ == e.relative_path@
                    &&& out@[k].status@ == status_label(e.status)
                    &&& opt_nat(out@[k].added_lines) == st.added
                    &&& opt_nat(out@[k].deleted_lines) == st.deleted
                    &&& out@[k].binary == st.binary
                },
    {
        let e = &entries[i];
        let st = resolve_diff_stats(include_stats, e.status, e.repo_path.as_str(), table, worktree_lines[i]);
        let m = modified_file(ws, e, st);
        out.push(m);
    }
    out
}

/// Whether `f` lists the change `(relative path, repository path, kind)` of a
/// vault rooted at `root` with statistics `st`.
pub open spec fn lists_change(
    f: ModifiedFile,
    root: Seq<char>,
    change: (Seq<char>, Seq<char>, FileChangeStatus),
    st: DiffStatsView,
) -> bool {
    &&& f.path@ == joined_path(root, change.0)
    &&& f.relative_path@ == change.0
    &&& f.status@ == status_label(change.2)
    &&& opt_nat(f.added_lines) == st.added
    &&& opt_nat(f.deleted_lines) == st.deleted
    &&& f.binary == st.binary
}

/// `v` lists `changes` in order, change `i` with statistics `stats[i]`.
pub open spec fn lists_changes(
    v: Seq<ModifiedFile>,
    root: Seq<char>,
    changes: Seq<(Seq<char>, Seq<char>, FileChangeStatus)>,
    stats: Seq<DiffStatsView>,
) -> bool {
    &&& v.len() == changes.len()
    &&& stats.len() == changes.len()
    &&& forall|i: int| 0 <= i < v.len() ==> lists_change(#[trigger] v[i], root, changes[i], stats[i])
}

/// No statistics for each of `n` changes.
pub open spec fn no_stats_for(n: nat) -> Seq<DiffStatsView> {
    Seq::new(n, |i: int| no_stats())
}

/// The statistics of each change: its untracked line count or its numstat record.
pub open spec fn stats_for(
    entries: Seq<ModifiedEntry>,
    table: Seq<(Seq<char>, DiffStatsView)>,
    lines: Seq<Option<usize>>,
) -> Seq<DiffStatsView> {
    Seq::new(
        entries.len(),
        |i: int| resolved_stats(true, entries[i].status, entries[i].repo_path@, table, opt_nat(lines[i])),
    )
}

/// The vault's changed notes without line statistics, from the outcome of its
/// status command: the status error, or one listing per Markdown change of the
/// vault in status order.
pub fn get_modified_files(ws: &GitWorkspace, status: Result<CommandOutput, String>) -> (r: Result<
    Vec<ModifiedFile>,
    String,
>)
    requires
        status is Ok && status->Ok_0.success ==> status_sliceable(status->Ok_0.stdout@),
    ensures
        match status {
            Err(e) => r matches Err(m) && m@ == "Failed to run git status: "@ + e@,
            Ok(o) => if o.success {
                r matches Ok(v) && lists_changes(
                    v@,
                    ws@.vault_root,
                    markdown_changes(ws@.pathspec, status_entries(o.stdout@)),
                    no_stats_for(markdown_changes(ws@.pathspec, status_entries(o.stdout@)).len()),
                )
            } else {
                r matches Err(m) && m@ == "git status failed: "@ + trim(o.stderr@)
            },
        },
{
    let stdout = status_output(status)?;
    let entries = modified_entries(ws, stdout.as_str());
    let mut lines: Vec<Option<usize>> = Vec::new();
    for i in 0..entries.len()
        invariant
            lines@.len() == i,
    {
        lines.push(None);
    }
    let table = empty_table();
    let r = modified_files(ws, &entries, false, &table, &lines);
    let ghost ch = markdown_changes(ws@.pathspec, status_entries(stdout@));
    assert forall|i: int| 0 <= i < r@.len() implies lists_change(
        #[trigger] r@[i],
        ws@.vault_root,
        ch[i],
        no_stats_for(ch.len())[i],
    ) by {
        assert(modified_entries_view(entries@)[i] == (entries@[i].relative_path@, entries@[i].repo_path@, entries@[i].status));
    }
    Ok(r)
}

/// The vault's changed notes with line statistics: `entries` are the vault's
/// Markdown changes, `table` the numstat records against `HEAD`, and
/// `worktree_lines[i]` the line count read for change `i` when it is untracked.
pub fn get_modified_files_with_stats(
    ws: &GitWorkspace,
    entries: &Vec<ModifiedEntry>,
    table: &DiffStatsTable,
    worktree_lines: &Vec<Option<usize>>,
) -> (r: Vec<ModifiedFile>)
    requires
        worktree_lines@.len() == entries@.len(),
    ensures
        lists_changes(
            r@,
            ws@.vault_root,
            modified_entries_view(entries@),
            stats_for(entries@, table_view(table.entries@), worktree_lines@),
        ),
{
    let r = modified_files(ws, entries, true, table, worktree_lines);
    let ghost st = stats_for(entries@, table_view(table.entries@), worktree_lines@);
    assert forall|i: int| 0 <= i < r@.len() implies lists_change(
        #[trigger] r@[i],
        ws@.vault_root,
        modified_entries_view(entries@)[i],
        st[i],
    ) by {
        assert(entries@[i] == entries@[i]);
    }
    r
}

/// The listing without statistics and the listing with statistics of the same
/// changes agree on every path, relative path and label, and the first carries
/// no counts.
pub proof fn law_listings_agree(
    root: Seq<char>,
    changes: Seq<(Seq<char>, Seq<char>, FileChangeStatus)>,
    plain: Seq<ModifiedFile>,
    counted: Seq<ModifiedFile>,
    stats: Seq<DiffStatsView>,
)
    requires
        lists_changes(plain, root, changes, no_stats_for(changes.len())),
        lists_changes(counted, root, changes, stats),
    ensures
        plain.len() == counted.len(),
        forall|i: int|
            0 <= i < plain.len() ==> {
                &&& (#[trigger] plain[i]).path@ == counted[i].path@
                &&& plain[i].relative_path@ == counted[i].relative_path@
                &&& plain[i].status@ == counted[i].status@
                &&& plain[i].added_lines is None
                &&& plain[i].deleted_lines is None
                &&& !plain[i].binary
            },
{
    assert forall|i: int| 0 <= i < plain.len() implies {
        &&& (#[trigger] plain[i]).path@ == counted[i].path@
        &&& plain[i].relative_path@ == counted[i].relative_path@
        &&& plain[i].status@ == counted[i].status@
        &&& plain[i].added_lines is None
        &&& plain[i].deleted_lines is None
        &&& !plain[i].binary
    } by {
        assert(lists_change(plain[i], root, changes[i], no_stats_for(changes.len())[i]));
        assert(lists_change(counted[i], root, changes[i], stats[i]));
        match plain[i].added_lines {
            Some(n) => assert(opt_nat(Some(n)) is Some),
            None => {},
        }
        match plain[i].deleted_lines {
            Some(n) => assert(opt_nat(Some(n)) is Some),
            None => {},
        }
    }
}

/// The labels a change is listed with.
pub open spec fn is_change_label(l: Seq<char>) -> bool {
    l == "added"@ || l == "deleted"@ || l == "untracked"@ || l == "renamed"@ || l == "modified"@
}

/// Every listed change of a vault is a Markdown note of the vault: its
/// relative path ends in `.md` and is what a repository path maps to in the
/// vault, its path is the vault root joined with it, and its label is one of
/// the five change labels.
pub proof fn law_change_listing(
    pathspec: Seq<char>,
    root: Seq<char>,
    entries: Seq<(Seq<char>, Seq<char>)>,
    v: Seq<ModifiedFile>,
    stats: Seq<DiffStatsView>,
    i: int,
)
    requires
        lists_changes(v, root, markdown_changes(pathspec, entries), stats),
        0 <= i < v.len(),
    ensures
        ends_with(v[i].relative_path@, ".md"@),
        v[i].path@ == joined_path(root, v[i].relative_path@),
        is_change_label(v[i].status@),
        exists|q: Seq<char>| vault_relative(pathspec, q) == Some(v[i].relative_path@),
{
    let ch = markdown_changes(pathspec, entries);
    assert(lists_change(v[i], root, ch[i], stats[i]));
    law_listed_changes_are_vault_notes(pathspec, entries, i);
    assert(vault_relative(pathspec, ch[i].1) == Some(v[i].relative_path@));
}

/// The numstat records of the vault's changes: none before the first commit
/// (`has_head` false, when `numstat` is not looked at), else what
/// `git diff --numstat` gave.
pub fn diff_stats_table(has_head: bool, numstat: Result<CommandOutput, String>) -> (r: Result<
    DiffStatsTable,
    String,
>)
    ensures
        !has_head ==> (r matches Ok(t) && t.entries@.len() == 0),
        has_head ==> match numstat {
            Err(e) => r matches Err(m) && m@ == "Failed to run git diff --numstat: "@ + e@,
            Ok(o) => if o.success {
                r matches Ok(t) && table_view(t.entries@) == numstat_entries_from(
                    nul_fields(o.stdout@),
                    0,
                )
            } else {
                r matches Err(m) && m@ == "git diff --numstat failed: "@ + trim(o.stderr@)
            },
        },
{
    if !has_head {
        return Ok(empty_table());
    }
    load_diff_stats(numstat)
}

/// The files whose lines are counted for the statistics: for each change, the
/// file's full path when it is untracked, else `None`.
pub fn line_count_paths(ws: &GitWorkspace, entries: &Vec<ModifiedEntry>) -> (r: Vec<Option<String>>)
    ensures
        r@.len() == entries@.len(),
        forall|i: int|
            0 <= i < entries@.len() ==> (if (#[trigger] entries@[i]).status
                == FileChangeStatus::Untracked {
                r@[i] matches Some(p) && p@ == joined_path(ws@.vault_root, entries@[i].relative_path@)
            } else {
                r@[i] is None
            }),
{
    let root = ws.vault_root();
    let mut out: Vec<Option<String>> = Vec::new();
    for i in 0..entries.len()
        invariant
            out@.len() == i,
            root@ == ws@.vault_root,
            forall|k: int|
                0 <= k < i ==> (if (#[trigger] entries@[k]).status == FileChangeStatus::Untracked {
                    out@[k] matches Some(p) && p@ == joined_path(ws@.vault_root, entries@[k].relative_path@)
                } else {
                    out@[k] is None
                }),
    {
        if entries[i].status == FileChangeStatus::Untracked {
            out.push(Some(join_path(root.as_str(), entries[i].relative_path.as_str())));
        } else {
            out.push(None);
        }
    }
    out
}

/// Whether a relative path climbs out with a `..` component.
pub open spec fn has_parent_component(p: Seq<char>) -> bool {
    exists|i: int| 0 <= i < split_char(p, '/').len() && #[trigger] split_char(p, '/')[i] == seq!['.', '.']
}

/// The first check of discarding: a path with a `..` component is refused.
pub fn ensure_relative_within_vault(relative_path: &str) -> (r: Result<(), String>)
    ensures
        has_parent_component(relative_path@) ==> (r matches Err(m) && m@ == "File path is outside the vault"@),
        !has_parent_component(relative_path@) ==> r is Ok,
{
    let parts = split(chars_of(relative_path).as_slice(), '/');
    for i in 0..parts.len()
        invariant
            views(parts@) == split_char(relative_path@, '/'),
            forall|k: int| 0 <= k < i ==> #[trigger] split_char(relative_path@, '/')[k] != seq!['.', '.'],
    {
        assert(views(parts@)[i as int] == parts@[i as int]@);
        if is_chars2(parts[i].as_slice(), '.', '.') {
            return Err(string_from("File path is outside the vault"));
        }
    }
    Ok(())
}

/// The second check of discarding, once both paths are canonical: the file
/// must lie under the vault (`Path::starts_with`, component-wise).
pub open spec fn path_under(root: Seq<char>, file: Seq<char>) -> bool {
    file == root || starts_with(file, root + "/"@) || (ends_with(root, "/"@) && starts_with(file, root))
}

pub fn ensure_canonical_within_vault(canonical_vault: &str, canonical_file: &str) -> (r: Result<(), String>)
    ensures
        path_under(canonical_vault@, canonical_file@) ==> r is Ok,
        !path_under(canonical_vault@, canonical_file@) ==> (r matches Err(m) && m@ == "File path is outside the vault"@),
{
    let root = chars_of(canonical_vault);
    let file = chars_of(canonical_file);
    proof {
        reveal_strlit("/");
    }
    if seq_eq(file.as_slice(), root.as_slice()) {
        return Ok(());
    }
    let mut with_slash = slice_of(root.as_slice(), 0, root.len());
    with_slash.push('/');
    assert(with_slash@ =~= root@ + "/"@);
    if crate::text::has_prefix(file.as_slice(), with_slash.as_slice()) {
        return Ok(());
    }
    let slash = chars_of("/");
    if has_suffix(root.as_slice(), slash.as_slice()) && crate::text::has_prefix(file.as_slice(), root.as_slice()) {
        return Ok(());
    }
    Err(string_from("File path is outside the vault"))
}

/// The first line of at least four bytes, if any.
pub open spec fn first_long_line(ls: Seq<Seq<char>>) -> Option<Seq<char>>
    decreases ls.len(),
{
    if ls.len() == 0 {
        None
    } else if utf8_len(ls[0]) >= 4 {
        Some(ls[0])
    } else {
        first_long_line(ls.drop_first())
    }
}

/// The status code of one file from `git status --porcelain -- <file>`: the
/// first two bytes, trimmed, of the first line of four or more bytes; empty
/// when there is none.
pub open spec fn first_status_code(ls: Seq<Seq<char>>) -> Seq<char> {
    match first_long_line(ls) {
        None => seq![],
        Some(l) => match boundary_chars(l, 2) {
            Some(a) => trim(l.take(a as int)),
            None => seq![],
        },
    }
}

/// Whether taking the code of the first long line stays on a character
/// boundary (the cut would panic otherwise); Git's own output always does.
pub open spec fn status_line_sliceable(ls: Seq<Seq<char>>) -> bool {
    match first_long_line(ls) {
        None => true,
        Some(l) => boundary_chars(l, 2) is Some,
    }
}

proof fn lemma_first_long_line_skip(ls: Seq<Seq<char>>, i: int)
    requires
        0 <= i <= ls.len(),
        forall|k: int| 0 <= k < i ==> utf8_len(#[trigger] ls[k]) < 4,
    ensures
        first_long_line(ls) == first_long_line(ls.subrange(i, ls.len() as int)),
    decreases i,
{
    if i == 0 {
        assert(ls.subrange(0, ls.len() as int) =~= ls);
    } else {
        assert(utf8_len(ls[0]) < 4);
        let t = ls.drop_first();
        assert forall|k: int| 0 <= k < i - 1 implies utf8_len(#[trigger] t[k]) < 4 by {
            assert(t[k] == ls[k + 1]);
        }
        lemma_first_long_line_skip(t, i - 1);
        assert(t.subrange(i - 1, t.len() as int) =~= ls.subrange(i, ls.len() as int));
    }
}

/// The index of the first line of at least four bytes, or the number of lines.
fn first_long_line_index(ls: &Vec<Vec<char>>) -> (i: usize)
    ensures
        i <= ls@.len(),
        i == ls@.len() ==> first_long_line(views(ls@)) is None,
        i < ls@.len() ==> first_long_line(views(ls@)) == Some(ls@[i as int]@),
{
    let mut i: usize = 0;
    while i < ls.len() && utf8_len_below(ls[i].as_slice(), 4)
        invariant
            i <= ls@.len(),
            forall|k: int| 0 <= k < i ==> utf8_len(#[trigger] views(ls@)[k]) < 4,
        decreases ls@.len() - i,
    {
        assert(views(ls@)[i as int] == ls@[i as int]@);
        i += 1;
    }
    proof {
        lemma_first_long_line_skip(views(ls@), i as int);
        if i < ls@.len() {
            assert(views(ls@).subrange(i as int, ls@.len() as int)[0] == ls@[i as int]@);
        } else {
            assert(views(ls@).subrange(i as int, ls@.len() as int).len() == 0);
        }
    }
    i
}

/// Tests `status_line_sliceable` on the lines of a status output.
pub fn file_status_sliceable(stdout: &str) -> (r: bool)
    ensures
        r == status_line_sliceable(lines(stdout@)),
{
    let ls = lines_of(chars_of(stdout).as_slice());
    let i = first_long_line_index(&ls);
    if i == ls.len() {
        true
    } else {
        boundary_chars_of(ls[i].as_slice(), 2).is_some()
    }
}

/// The status code of the file being discarded.
pub fn load_file_status(outcome: Result<CommandOutput, String>) -> (r: Result<String, String>)
    requires
        outcome is Ok ==> status_line_sliceable(lines(outcome->Ok_0.stdout@)),
    ensures
        match outcome {
            Err(e) => r matches Err(m) && m@ == "Failed to run git status: "@ + e@,
            Ok(o) => r matches Ok(c) && c@ == first_status_code(lines(o.stdout@)),
        },
{
    match outcome {
        Err(e) => Err(prefixed("Failed to run git status: ", e.as_str())),
        Ok(o) => {
            let ls = lines_of(chars_of(o.stdout.as_str()).as_slice());
            let i = first_long_line_index(&ls);
            if i == ls.len() {
                return Ok(String::new());
            }
            match boundary_chars_of(ls[i].as_slice(), 2) {
                Some(a) => {
                    let head = slice_of(ls[i].as_slice(), 0, a);
                    assert(head@ =~= ls@[i as int]@.take(a as int));
                    let code = trim_chars(head.as_slice());
                    Ok(string_of(code.as_slice()))
                },
                None => Ok(String::new()),
            }
        },
    }
}

/// How a file's changes are discarded.
pub enum DiscardAction {
    /// The file is untracked or newly added: delete it from disk, first taking
    /// it out of the index when `unstage` (a staged new file).
    RemoveFile { unstage: bool },
    /// The file is tracked: unstage it and check out the committed version.
    RestoreTracked,
}

/// Whether a status code marks a file that the last commit does not have:
/// untracked (`??`) or added to the index (first status letter `A`).
pub open spec fn is_new_file(code: Seq<char>) -> bool {
    code == seq!['?', '?'] || is_added(code)
}

/// The first status letter is `A`: a new file staged in the index.
pub open spec fn is_added(code: Seq<char>) -> bool {
    code.len() > 0 && code[0] == 'A'
}

/// Discarding by status code: untracked and added files are removed from
/// disk (an added one is taken out of the index first), others restored.
pub fn discard_file_changes(status_code: &str) -> (r: DiscardAction)
    ensures
        is_new_file(status_code@) ==> r == (DiscardAction::RemoveFile { unstage: is_added(status_code@) }),
        !is_new_file(status_code@) ==> r is RestoreTracked,
{
    let code = chars_of(status_code);
    let added = code.len() > 0 && code[0] == 'A';
    if added || is_chars2(code.as_slice(), '?', '?') {
        DiscardAction::RemoveFile { unstage: added }
    } else {
        DiscardAction::RestoreTracked
    }
}

/// Arguments that take a path out of the index and keep it on disk.
pub fn unstage_args(ws: &GitWorkspace, relative_path: &str) -> (r: Vec<String>)
    ensures
        texts(r@) == seq![
            "rm"@,
            "--cached"@,
            "--force"@,
            "--quiet"@,
            "--"@,
            crate::workspace::repo_relative(ws@.pathspec, relative_path@),
        ],
{
    let mut r: Vec<String> = Vec::new();
    push_lit(&mut r, "rm");
    push_lit(&mut r, "--cached");
    push_lit(&mut r, "--force");
    push_lit(&mut r, "--quiet");
    push_lit(&mut r, "--");
    push_arg(&mut r, ws.repo_relative_path(relative_path));
    r
}

/// What taking a staged new file out of the index came to.
pub fn unstage_outcome(outcome: Result<CommandOutput, String>) -> (r: Result<(), String>)
    ensures
        match outcome {
            Err(e) => r matches Err(m) && m@ == "Failed to run git rm: "@ + e@,
            Ok(o) => if o.success {
                r is Ok
            } else {
                r matches Err(m) && m@ == "git rm failed: "@ + trim(o.stderr@)
            },
        },
{
    match outcome {
        Err(e) => Err(prefixed("Failed to run git rm: ", e.as_str())),
        Ok(o) => if o.success {
            Ok(())
        } else {
            let t = crate::text::trim_string(o.stderr.as_str());
            Err(prefixed("git rm failed: ", t.as_str()))
        },
    }
}

/// What restoring a tracked file came to, from its `git checkout`.
pub fn restore_tracked_file(checkout: Result<CommandOutput, String>) -> (r: Result<(), String>)
    ensures
        match checkout {
            Err(e) => r matches Err(m) && m@ == "Failed to run git checkout: "@ + e@,
            Ok(o) => if o.success {
                r is Ok
            } else {
                r matches Err(m) && m@ == "git checkout failed: "@ + trim(o.stderr@)
            },
        },
{
    match checkout {
        Err(e) => Err(prefixed("Failed to run git checkout: ", e.as_str())),
        Ok(o) => if o.success {
            Ok(())
        } else {
            let t = crate::text::trim_string(o.stderr.as_str());
            Err(prefixed("git checkout failed: ", t.as_str()))
        },
    }
}

/// Every change listed for a vault is a Markdown note inside it: its listed
/// path ends in `.md` and is what its repository path maps to in the vault.
pub proof fn law_listed_changes_are_vault_notes(
    pathspec: Seq<char>,
    entries: Seq<(Seq<char>, Seq<char>)>,
    i: int,
)
    requires
        0 <= i < markdown_changes(pathspec, entries).len(),
    ensures
        ends_with(markdown_changes(pathspec, entries)[i].0, ".md"@),
        vault_relative(pathspec, markdown_changes(pathspec, entries)[i].1) == Some(
            markdown_changes(pathspec, entries)[i].0,
        ),
    decreases entries.len(),
{
    let rest = markdown_changes(pathspec, entries.drop_last());
    if i < rest.len() {
        law_listed_changes_are_vault_notes(pathspec, entries.drop_last(), i);
    }
}

/// The label a listing shows for a porcelain code, read off the code itself:
/// `A` added, `D` deleted, `??` untracked, `R` or `RM` renamed, anything else
/// modified (the code taken without surrounding whitespace).
pub open spec fn porcelain_label(code: Seq<char>) -> Seq<char> {
    let t = trim(code);
    if t == seq!['A'] {
        "added"@
    } else if t == seq!['D'] {
        "deleted"@
    } else if t == seq!['?', '?'] {
        "untracked"@
    } else if t == seq!['R'] || t == seq!['R', 'M'] {
        "renamed"@
    } else {
        "modified"@
    }
}

/// A change is labelled by what its porcelain code says: a deleted file
/// `deleted`, an added one `added`, and so on.
pub proof fn law_change_labels(code: Seq<char>)
    ensures
        status_label(status_of_code(code)) == porcelain_label(code),
{
}

/// Different kinds of change have different labels, each its own word.
pub proof fn law_labels_distinct(a: FileChangeStatus, b: FileChangeStatus)
    ensures
        a != b ==> status_label(a) != status_label(b),
        is_change_label(status_label(a)),
{
    reveal_strlit("added");
    reveal_strlit("deleted");
    reveal_strlit("untracked");
    reveal_strlit("renamed");
    reveal_strlit("modified");
    assert("added"@.len() == 5 && "untracked"@.len() == 9 && "modified"@.len() == 8);
    assert("deleted"@.len() == 7 && "renamed"@.len() == 7);
    assert("deleted"@[0] == 'd' && "renamed"@[0] == 'r');
}

proof fn lemma_markdown_changes_from(
    pathspec: Seq<char>,
    entries: Seq<(Seq<char>, Seq<char>)>,
    i: int,
)
    requires
        0 <= i < markdown_changes(pathspec, entries).len(),
    ensures
        exists|j: int|
            0 <= j < entries.len() && (#[trigger] entries[j]).1 == markdown_changes(pathspec, entries)[i].1
                && status_of_code(entries[j].0) == markdown_changes(pathspec, entries)[i].2,
    decreases entries.len(),
{
    let init = entries.drop_last();
    let rest = markdown_changes(pathspec, init);
    if i < rest.len() {
        lemma_markdown_changes_from(pathspec, init, i);
        let j = choose|j: int|
            0 <= j < init.len() && (#[trigger] init[j]).1 == rest[i].1 && status_of_code(init[j].0)
                == rest[i].2;
        assert(entries[j] == init[j]);
    } else {
        assert(entries[entries.len() - 1] == entries.last());
    }
}

/// Each listed change shows the label of the porcelain code of a status entry
/// whose repository path maps to the listed path in the vault.
pub proof fn law_listed_label(
    pathspec: Seq<char>,
    root: Seq<char>,
    entries: Seq<(Seq<char>, Seq<char>)>,
    v: Seq<ModifiedFile>,
    stats: Seq<DiffStatsView>,
    i: int,
)
    requires
        lists_changes(v, root, markdown_changes(pathspec, entries), stats),
        0 <= i < v.len(),
    ensures
        exists|j: int|
            0 <= j < entries.len() && vault_relative(pathspec, (#[trigger] entries[j]).1) == Some(
                v[i].relative_path@,
            ) && v[i].status@ == porcelain_label(entries[j].0),
{
    let ch = markdown_changes(pathspec, entries);
    assert(lists_change(v[i], root, ch[i], stats[i]));
    law_listed_changes_are_vault_notes(pathspec, entries, i);
    lemma_markdown_changes_from(pathspec, entries, i);
    let j = choose|j: int|
        0 <= j < entries.len() && (#[trigger] entries[j]).1 == ch[i].1 && status_of_code(entries[j].0)
            == ch[i].2;
    law_change_labels(entries[j].0);
}

/// A numstat record `<added>\t<deleted>\t<path>` is read in order: the first
/// count is the added lines and the second the deleted ones, each the number
/// written there; a `-` marks a binary file, which has no counts.
pub proof fn law_numstat_fields(added: Seq<char>, deleted: Seq<char>, path: Seq<char>)
    requires
        !added.contains('\t'),
        !deleted.contains('\t'),
        path.len() > 0,
    ensures
        numstat_header(added + seq!['\t'] + deleted + seq!['\t'] + path) == Some(
            (
                Some(path),
                DiffStatsView {
                    added: numstat_count(added),
                    deleted: numstat_count(deleted),
                    binary: added == seq!['-'] || deleted == seq!['-'],
                },
            ),
        ),
        forall|a: nat, d: nat|
            a <= usize::MAX && d <= usize::MAX && added == decimal(a) && deleted == decimal(d)
                ==> numstat_count(added) == Some(a) && numstat_count(deleted) == Some(d),
        added == seq!['-'] ==> numstat_count(added) is None,
{
    let rest = deleted + seq!['\t'] + path;
    assert(added + seq!['\t'] + deleted + seq!['\t'] + path =~= added + seq!['\t'] + rest);
    crate::text::lemma_splitn_field(added, rest, 3, '\t');
    crate::text::lemma_splitn_field(deleted, path, 2, '\t');
    assert(splitn_char(added + seq!['\t'] + rest, 3, '\t') =~= seq![added, deleted, path]);
    assert forall|a: nat, d: nat|
        a <= usize::MAX && d <= usize::MAX && added == decimal(a) && deleted == decimal(d)
            implies numstat_count(added) == Some(a) && numstat_count(deleted) == Some(d) by {
        crate::text::lemma_decimal_parses(a, usize::MAX as nat);
        crate::text::lemma_decimal_parses(d, usize::MAX as nat);
    }
    if added == seq!['-'] {
        lemma_dash_no_count();
    }
}

proof fn lemma_dash_no_count()
    ensures
        numstat_count(seq!['-']) is None,
{
    let d = seq!['-'];
    assert(crate::text::unsigned_digits(d) == d);
    assert(!crate::text::is_ascii_digit(d[0]));
}

/// A porcelain field `XY <path>` with an ASCII code is read as the code `XY`
/// and the path after the space.
pub proof fn law_status_field_ascii(x: char, y: char, sep: char, path: Seq<char>)
    requires
        (x as u32) < 0x80,
        (y as u32) < 0x80,
        (sep as u32) < 0x80,
        path.len() > 0,
    ensures
        status_field(seq![x, y, sep] + path) == Some((seq![x, y], path)),
{
    let f = seq![x, y, sep] + path;
    crate::text::lemma_utf8_len_at_least(f);
    let t1 = f.drop_first();
    let t2 = t1.drop_first();
    let t3 = t2.drop_first();
    assert(f[0] == x && t1[0] == y && t2[0] == sep);
    assert(boundary_chars(t2, 0) == Some(0nat));
    assert(boundary_chars(t3, 0) == Some(0nat));
    assert(boundary_chars(t1, 1) == Some(1nat));
    assert(boundary_chars(f, 2) == Some(2nat));
    assert(boundary_chars(t2, 1) == Some(1nat));
    assert(boundary_chars(t1, 2) == Some(2nat));
    assert(boundary_chars(f, 3) == Some(3nat));
    assert(f.take(2) =~= seq![x, y]);
    assert(f.skip(3) =~= path);
}

/// In `-z` status output a rename or a copy (an `R` or a `C` in its code) is
/// followed by its source path, which is passed over and not listed; any other
/// entry is followed directly by the next one.
pub proof fn law_sources_follow_renames_and_copies(
    fields: Seq<Seq<char>>,
    i: int,
    x: char,
    y: char,
    sep: char,
    path: Seq<char>,
)
    requires
        0 <= i < fields.len(),
        fields[i] == seq![x, y, sep] + path,
        (x as u32) < 0x80,
        (y as u32) < 0x80,
        (sep as u32) < 0x80,
        path.len() > 0,
    ensures
        x == 'R' || y == 'R' || x == 'C' || y == 'C' ==> status_entries_from(fields, i) == seq![
            (seq![x, y], path),
        ] + status_entries_from(fields, i + 2),
        !(x == 'R' || y == 'R' || x == 'C' || y == 'C') ==> status_entries_from(fields, i)
            == seq![(seq![x, y], path)] + status_entries_from(fields, i + 1),
{
    law_status_field_ascii(x, y, sep, path);
    let code = seq![x, y];
    assert(code[0] == x && code[1] == y);
    if x == 'R' || y == 'R' || x == 'C' || y == 'C' {
        if x == 'R' || x == 'C' {
            assert(code.contains(x));
        } else {
            assert(code.contains(y));
        }
        assert(has_source_path(code));
    } else {
        assert forall|k: int| 0 <= k < code.len() implies code[k] != 'R' && code[k] != 'C' by {}
        assert(!has_source_path(code));
    }
}

} // verus!
