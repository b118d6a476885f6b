//! Where a vault sits inside its Git work tree, and the one boundary that maps
//! paths between the vault and the repository.
use vstd::prelude::*;
use crate::text::{
    chars_of, has_prefix, join, join_chars, lemma_views_push, push_all, replace, replace_char,
    lemma_rfind_char, rfind, rfind_char, slice_of, split, split_char, starts_with, string_from, string_of, trim,
    trim_chars, views,
};
use crate::command::CommandOutput;

verus! {

/// `\` written as `/`.
pub open spec fn normalize_git_path(s: Seq<char>) -> Seq<char> {
    replace_char(s, '\\', seq!['/'])
}

/// `s` without any trailing run of `c` (`str::trim_end_matches`).
pub open spec fn trim_end_matches(s: Seq<char>, c: char) -> Seq<char>
    decreases s.len(),
{
    if s.len() > 0 && s.last() == c {
        trim_end_matches(s.drop_last(), c)
    } else {
        s
    }
}

pub open spec fn is_invalid_prefix_part(part: Seq<char>) -> bool {
    part.len() == 0 || part == seq!['.'] || part == seq!['.', '.']
}

/// A prefix is refused when it is absolute or has an empty, `.` or `..` part.
pub open spec fn is_invalid_prefix(p: Seq<char>) -> bool {
    ||| starts_with(p, seq!['/'])
    ||| exists|i: int|
        0 <= i < split_char(p, '/').len() && is_invalid_prefix_part(#[trigger] split_char(p, '/')[i])
}

/// The prefix text after trimming whitespace and trailing slashes, with `\` as `/`.
pub open spec fn cleaned_prefix(raw: Seq<char>) -> Seq<char> {
    normalize_git_path(trim_end_matches(trim(raw), '/'))
}

/// The vault's pathspec from `git rev-parse --show-prefix` output.
pub open spec fn normalize_prefix(raw: Seq<char>) -> Result<Seq<char>, Seq<char>> {
    let p = cleaned_prefix(raw);
    if p.len() == 0 {
        Ok(seq![])
    } else if is_invalid_prefix(p) {
        Err("invalid_git_prefix"@)
    } else {
        Ok(p)
    }
}

/// The parent of a canonical path (`Path::parent`): `None` for `/` and the empty path.
pub open spec fn parent_path(p: Seq<char>) -> Option<Seq<char>> {
    if p.len() == 0 || p == seq!['/'] {
        None
    } else {
        let i = rfind_char(p, '/');
        if i < 0 {
            Some(seq![])
        } else if i == 0 {
            Some(seq!['/'])
        } else {
            Some(p.subrange(0, i))
        }
    }
}

/// `p` after `n` pops of its last component, if each pop succeeds.
pub open spec fn ancestor(p: Seq<char>, n: nat) -> Option<Seq<char>>
    decreases n,
{
    if n == 0 {
        Some(p)
    } else {
        match parent_path(p) {
            Some(q) => ancestor(q, (n - 1) as nat),
            None => None,
        }
    }
}

/// Number of non-empty parts.
pub open spec fn count_nonempty(parts: Seq<Seq<char>>) -> nat
    decreases parts.len(),
{
    if parts.len() == 0 {
        0
    } else {
        count_nonempty(parts.drop_last()) + if parts.last().len() > 0 {
            1nat
        } else {
            0nat
        }
    }
}

/// The Git root: the canonical vault root with one component removed per prefix part.
pub open spec fn ancestor_for_prefix(root: Seq<char>, prefix: Seq<char>) -> Result<
    Seq<char>,
    Seq<char>,
> {
    match ancestor(root, count_nonempty(split_char(prefix, '/'))) {
        Some(g) => Ok(g),
        None => Err("invalid_git_prefix"@),
    }
}

/// A path component that `Path::components` yields as `Normal`.
pub open spec fn is_normal_component(c: Seq<char>) -> bool {
    c.len() > 0 && c != seq!['.'] && c != seq!['.', '.']
}

pub open spec fn normal_components(parts: Seq<Seq<char>>) -> Seq<Seq<char>>
    decreases parts.len(),
{
    if parts.len() == 0 {
        seq![]
    } else {
        let r = normal_components(parts.drop_last());
        if is_normal_component(parts.last()) {
            r.push(parts.last())
        } else {
            r
        }
    }
}

/// The normal components of a path joined with `/`.
pub open spec fn path_to_git_string(p: Seq<char>) -> Seq<char> {
    join(normal_components(split_char(p, '/')), seq!['/'])
}

/// A vault-relative path as a repository-relative path.
pub open spec fn repo_relative(pathspec: Seq<char>, vault_relative: Seq<char>) -> Seq<char> {
    let suffix = path_to_git_string(vault_relative);
    if pathspec.len() == 0 {
        suffix
    } else if suffix.len() == 0 {
        pathspec
    } else {
        pathspec + seq!['/'] + suffix
    }
}

/// A repository-relative path as a vault-relative one; `None` outside the vault.
pub open spec fn vault_relative(pathspec: Seq<char>, repo_path: Seq<char>) -> Option<Seq<char>> {
    let r = normalize_git_path(repo_path);
    if pathspec.len() == 0 {
        Some(r)
    } else if starts_with(r, pathspec) && r.len() > pathspec.len() && r[pathspec.len() as int]
        == '/' {
        Some(r.subrange(pathspec.len() + 1int, r.len() as int))
    } else {
        None
    }
}

/// A resolved workspace as plain sequences.
pub struct WorkspaceView {
    pub vault_root: Seq<char>,
    pub git_root: Seq<char>,
    pub pathspec: Seq<char>,
}

/// The vault root, the Git work-tree root and the vault's pathspec inside it.
pub struct GitWorkspace {
    vault_root: Vec<char>,
    git_root: Vec<char>,
    vault_pathspec: Vec<char>,
}

impl View for GitWorkspace {
    type V = WorkspaceView;

    closed spec fn view(&self) -> WorkspaceView {
        WorkspaceView {
            vault_root: self.vault_root@,
            git_root: self.git_root@,
            pathspec: self.vault_pathspec@,
        }
    }
}

impl GitWorkspace {
    /// Every workspace has a well-formed pathspec: its constructor checks it,
    /// and no method changes it.
    #[verifier::type_invariant]
    closed spec fn pathspec_well_formed(self) -> bool {
        self@.wf()
    }
}

impl WorkspaceView {
    /// The pathspec is empty or a clean relative path with `/` separators.
    pub open spec fn wf(self) -> bool {
        self.pathspec.len() == 0 || (!is_invalid_prefix(self.pathspec) && !self.pathspec.contains(
            '\\',
        ))
    }

    /// The pathspec handed to Git: `.` for a vault at the root.
    pub open spec fn pathspec_arg(self) -> Seq<char> {
        if self.pathspec.len() == 0 {
            seq!['.']
        } else {
            self.pathspec
        }
    }

    pub open spec fn uses_parent(self) -> bool {
        self.pathspec.len() > 0
    }

    pub open spec fn relation(self) -> Seq<char> {
        if self.pathspec.len() == 0 {
            "vault"@
        } else {
            "parent"@
        }
    }
}

proof fn lemma_replace_no_backslash(s: Seq<char>)
    ensures
        !replace_char(s, '\\', seq!['/']).contains('\\'),
    decreases s.len(),
{
    if s.len() > 0 {
        lemma_replace_no_backslash(s.drop_last());
        let r = replace_char(s, '\\', seq!['/']);
        let a = replace_char(s.drop_last(), '\\', seq!['/']);
        assert forall|i: int| 0 <= i < r.len() implies r[i] != '\\' by {
            if i < a.len() {
                assert(r[i] == a[i]);
            }
        }
    }
}

pub fn normalize_git_path_chars(v: &[char]) -> (r: Vec<char>)
    ensures
        r@ == normalize_git_path(v@),
{
    let slash = ['/'];
    let r = replace(v, '\\', &slash);
    assert(slash@ =~= seq!['/']);
    r
}

fn trim_end_matches_chars(v: &[char], c: char) -> (r: Vec<char>)
    ensures
        r@ == trim_end_matches(v@, c),
{
    let mut j = v.len();
    assert(v@.subrange(0, v@.len() as int) =~= v@);
    while j > 0 && v[j - 1] == c
        invariant
            j <= v@.len(),
            trim_end_matches(v@, c) == trim_end_matches(v@.subrange(0, j as int), c),
        decreases j,
    {
        proof {
            assert(v@.subrange(0, j as int).drop_last() =~= v@.subrange(0, j - 1));
        }
        j -= 1;
    }
    proof {
        assert(v@.subrange(0, v@.len() as int) =~= v@);
    }
    slice_of(v, 0, j)
}

fn is_invalid_prefix_part_chars(part: &[char]) -> (r: bool)
    ensures
        r == is_invalid_prefix_part(part@),
{
    let r = part.len() == 0 || (part.len() == 1 && part[0] == '.') || (part.len() == 2 && part[0]
        == '.' && part[1] == '.');
    proof {
        if part@.len() == 1 && part@[0] == '.' {
            assert(part@ =~= seq!['.']);
        }
        if part@.len() == 2 && part@[0] == '.' && part@[1] == '.' {
            assert(part@ =~= seq!['.', '.']);
        }
    }
    r
}

fn is_invalid_prefix_chars(p: &[char]) -> (r: bool)
    ensures
        r == is_invalid_prefix(p@),
{
    if p.len() > 0 && p[0] == '/' {
        assert(p@.subrange(0, 1) =~= seq!['/']);
        return true;
    }
    proof {
        if p@.len() > 0 {
            assert(p@.subrange(0, 1)[0] == p@[0]);
        }
    }
    assert(!starts_with(p@, seq!['/']));
    let parts = split(p, '/');
    for i in 0..parts.len()
        invariant
            views(parts@) == split_char(p@, '/'),
            forall|k: int| 0 <= k < i ==> !is_invalid_prefix_part(#[trigger] split_char(p@, '/')[k]),
    {
        if is_invalid_prefix_part_chars(parts[i].as_slice()) {
            assert(split_char(p@, '/')[i as int] == parts@[i as int]@);
            return true;
        }
        assert(split_char(p@, '/')[i as int] == parts@[i as int]@);
    }
    false
}

/// The pathspec from `git rev-parse --show-prefix` output.
pub fn normalize_prefix_chars(raw: &[char]) -> (r: Result<Vec<char>, String>)
    ensures
        match r {
            Ok(p) => normalize_prefix(raw@) == Ok::<Seq<char>, Seq<char>>(p@),
            Err(e) => normalize_prefix(raw@) == Err::<Seq<char>, Seq<char>>(e@),
        },
{
    let t = trim_chars(raw);
    let t = trim_end_matches_chars(t.as_slice(), '/');
    let p = normalize_git_path_chars(t.as_slice());
    if p.len() == 0 {
        assert(p@ =~= seq![]);
        return Ok(p);
    }
    if is_invalid_prefix_chars(p.as_slice()) {
        return Err(string_from("invalid_git_prefix"));
    }
    Ok(p)
}

fn parent_chars(p: &[char]) -> (r: Option<Vec<char>>)
    ensures
        match r {
            Some(q) => parent_path(p@) == Some(q@),
            None => parent_path(p@) is None,
        },
{
    if p.len() == 0 || (p.len() == 1 && p[0] == '/') {
        proof {
            if p@.len() == 1 {
                assert(p@ =~= seq!['/']);
            }
        }
        return None;
    }
    assert(p@ != seq!['/']);
    proof {
        lemma_rfind_char(p@, '/');
    }
    match rfind(p, '/') {
        None => {
            let e: Vec<char> = Vec::new();
            assert(e@ =~= seq![]);
            Some(e)
        },
        Some(i) => {
            if i == 0 {
                let mut e: Vec<char> = Vec::new();
                e.push('/');
                assert(e@ =~= seq!['/']);
                Some(e)
            } else {
                Some(slice_of(p, 0, i))
            }
        },
    }
}

fn count_nonempty_parts(parts: &Vec<Vec<char>>) -> (n: usize)
    ensures
        n as nat == count_nonempty(views(parts@)),
{
    let mut n: usize = 0;
    for i in 0..parts.len()
        invariant
            n as nat == count_nonempty(views(parts@).take(i as int)),
            n <= i,
    {
        assert(views(parts@).take(i + 1).drop_last() =~= views(parts@).take(i as int));
        if parts[i].len() > 0 {
            n += 1;
        }
    }
    assert(views(parts@).take(parts@.len() as int) =~= views(parts@));
    n
}

/// The Git root for a canonical vault root and a pathspec.
pub fn ancestor_for_prefix_chars(root: &[char], prefix: &[char]) -> (r: Result<Vec<char>, String>)
    ensures
        match r {
            Ok(g) => ancestor_for_prefix(root@, prefix@) == Ok::<Seq<char>, Seq<char>>(g@),
            Err(e) => ancestor_for_prefix(root@, prefix@) == Err::<Seq<char>, Seq<char>>(e@),
        },
{
    let parts = split(prefix, '/');
    let depth = count_nonempty_parts(&parts);
    let ghost n = count_nonempty(split_char(prefix@, '/'));
    let mut cur = slice_of(root, 0, root.len());
    assert(root@.subrange(0, root@.len() as int) =~= root@);
    let mut k: usize = 0;
    while k < depth
        invariant
            k <= depth,
            depth as nat == n,
            n == count_nonempty(split_char(prefix@, '/')),
            ancestor(root@, n) == ancestor(cur@, (n - k) as nat),
        decreases depth - k,
    {
        match parent_chars(cur.as_slice()) {
            Some(q) => {
                cur = q;
            },
            None => {
                assert(ancestor(cur@, (n - k) as nat) is None);
                return Err(string_from("invalid_git_prefix"));
            },
        }
        k += 1;
    }
    Ok(cur)
}

pub fn normal_component(c: &[char]) -> (r: bool)
    ensures
        r == is_normal_component(c@),
{
    !is_invalid_prefix_part_chars(c)
}

/// `Path::components` kept to its normal parts, joined with `/`.
pub fn path_to_git_string_chars(p: &[char]) -> (r: Vec<char>)
    ensures
        r@ == path_to_git_string(p@),
{
    let parts = split(p, '/');
    let mut kept: Vec<Vec<char>> = Vec::new();
    for i in 0..parts.len()
        invariant
            views(parts@) == split_char(p@, '/'),
            views(kept@) == normal_components(views(parts@).take(i as int)),
    {
        assert(views(parts@).take(i + 1).drop_last() =~= views(parts@).take(i as int));
        let part = slice_of(parts[i].as_slice(), 0, parts[i].len());
        assert(parts[i as int]@.subrange(0, parts[i as int]@.len() as int) =~= parts[i as int]@);
        if normal_component(part.as_slice()) {
            proof {
                lemma_views_push(kept@, part);
            }
            kept.push(part);
        }
    }
    assert(views(parts@).take(parts@.len() as int) =~= views(parts@));
    let slash = ['/'];
    assert(slash@ =~= seq!['/']);
    join_chars(&kept, &slash)
}

impl GitWorkspace {
    /// A workspace from the vault root as given, its canonical form and the
    /// output of `git rev-parse --show-prefix` run in it.
    pub fn from_prefix(vault_root: &str, resolved_vault_root: &str, prefix_output: &str) -> (r:
        Result<GitWorkspace, String>)
        ensures
            match r {
                Ok(ws) => {
                    &&& normalize_prefix(prefix_output@) is Ok
                    &&& ancestor_for_prefix(
                        resolved_vault_root@,
                        normalize_prefix(prefix_output@)->Ok_0,
                    ) is Ok
                    &&& ws@.vault_root == vault_root@
                    &&& ws@.pathspec == normalize_prefix(prefix_output@)->Ok_0
                    &&& ws@.git_root == ancestor_for_prefix(
                        resolved_vault_root@,
                        normalize_prefix(prefix_output@)->Ok_0,
                    )->Ok_0
                    &&& ws@.wf()
                },
                Err(e) => match normalize_prefix(prefix_output@) {
                    Err(m) => e@ == m,
                    Ok(p) => ancestor_for_prefix(resolved_vault_root@, p) == Err::<
                        Seq<char>,
                        Seq<char>,
                    >(e@),
                },
            },
    {
        let raw = chars_of(prefix_output);
        let pathspec = match normalize_prefix_chars(raw.as_slice()) {
            Ok(p) => p,
            Err(e) => return Err(e),
        };
        let root = chars_of(resolved_vault_root);
        let git_root = match ancestor_for_prefix_chars(root.as_slice(), pathspec.as_slice()) {
            Ok(g) => g,
            Err(e) => return Err(e),
        };
        proof {
            let t = trim_end_matches(trim(raw@), '/');
            lemma_replace_no_backslash(t);
        }
        Ok(GitWorkspace { vault_root: chars_of(vault_root), git_root, vault_pathspec: pathspec })
    }

    /// The workspace of a vault from what resolving it found: whether the vault
    /// is a directory, the outcome of `git rev-parse --show-prefix` run in it, and
    /// the vault's canonical path. `Ok(None)` when the vault is in no work tree;
    /// the errors are the failure categories `invalid_vault`,
    /// `provider_unavailable`, `vault_resolution_failed` and `invalid_git_prefix`.
    pub fn resolve(
        vault_root: &str,
        is_dir: bool,
        prefix: Result<CommandOutput, String>,
        canonical: Result<String, String>,
    ) -> (r: Result<Option<GitWorkspace>, String>)
        ensures
            !is_dir ==> (r matches Err(e) && e@ == "invalid_vault"@),
            is_dir && prefix is Err ==> (r matches Err(e) && e@ == "provider_unavailable"@),
            is_dir && (prefix matches Ok(o) && !o.success) ==> r matches Ok(None),
            is_dir && (prefix matches Ok(o) && o.success) && canonical is Err ==> (r matches Err(e)
                && e@ == "vault_resolution_failed"@),
            is_dir && (prefix matches Ok(o) && o.success) && canonical is Ok ==> match r {
                Ok(Some(ws)) => {
                    &&& normalize_prefix(prefix->Ok_0.stdout@) is Ok
                    &&& ws@.vault_root == vault_root@
                    &&& ws@.pathspec == normalize_prefix(prefix->Ok_0.stdout@)->Ok_0
                    &&& ancestor_for_prefix(canonical->Ok_0@, ws@.pathspec) == Ok::<Seq<char>, Seq<char>>(
                        ws@.git_root,
                    )
                    &&& ws@.wf()
                },
                Ok(None) => false,
                Err(e) => match normalize_prefix(prefix->Ok_0.stdout@) {
                    Err(m) => e@ == m,
                    Ok(p) => ancestor_for_prefix(canonical->Ok_0@, p) == Err::<Seq<char>, Seq<char>>(e@),
                },
            },
    {
        if !is_dir {
            return Err(string_from("invalid_vault"));
        }
        let output = match prefix {
            Ok(o) => o,
            Err(_) => return Err(string_from("provider_unavailable")),
        };
        if !output.success {
            return Ok(None);
        }
        let resolved = match canonical {
            Ok(c) => c,
            Err(_) => return Err(string_from("vault_resolution_failed")),
        };
        match GitWorkspace::from_prefix(vault_root, resolved.as_str(), output.stdout.as_str()) {
            Ok(ws) => Ok(Some(ws)),
            Err(e) => Err(e),
        }
    }

    pub fn git_root(&self) -> (r: String)
        ensures
            r@ == self@.git_root,
            self@.wf(),
    {
        proof {
            use_type_invariant(self);
        }
        string_of(self.git_root.as_slice())
    }

    pub fn vault_root(&self) -> (r: String)
        ensures
            r@ == self@.vault_root,
            self@.wf(),
    {
        proof {
            use_type_invariant(self);
        }
        string_of(self.vault_root.as_slice())
    }

    /// The pathspec handed to Git: `.` for a vault at the root of its repository.
    pub fn vault_pathspec(&self) -> (r: String)
        ensures
            r@ == self@.pathspec_arg(),
            self@.wf(),
    {
        proof {
            use_type_invariant(self);
        }
        if self.vault_pathspec.len() == 0 {
            let mut s = String::new();
            s.push('.');
            assert(s@ =~= seq!['.']);
            s
        } else {
            string_of(self.vault_pathspec.as_slice())
        }
    }

    /// The pathspec as resolved: empty for a vault at the root.
    pub fn raw_pathspec(&self) -> (r: String)
        ensures
            r@ == self@.pathspec,
            self@.wf(),
    {
        proof {
            use_type_invariant(self);
        }
        string_of(self.vault_pathspec.as_slice())
    }

    pub fn uses_parent_repository(&self) -> (r: bool)
        ensures
            r == self@.uses_parent(),
    {
        self.vault_pathspec.len() > 0
    }

    pub fn relation(&self) -> (r: String)
        ensures
            r@ == self@.relation(),
    {
        if self.vault_pathspec.len() == 0 {
            string_from("vault")
        } else {
            string_from("parent")
        }
    }

    /// A vault-relative path as a repository-relative one.
    pub fn repo_relative_path(&self, vault_relative_path: &str) -> (r: String)
        ensures
            r@ == repo_relative(self@.pathspec, vault_relative_path@),
            self@.wf(),
    {
        proof {
            use_type_invariant(self);
        }
        let p = chars_of(vault_relative_path);
        let r = self.repo_relative_chars(p.as_slice());
        string_of(r.as_slice())
    }

    pub fn repo_relative_chars(&self, p: &[char]) -> (r: Vec<char>)
        ensures
            r@ == repo_relative(self@.pathspec, p@),
    {
        let suffix = path_to_git_string_chars(p);
        if self.vault_pathspec.len() == 0 {
            return suffix;
        }
        if suffix.len() == 0 {
            return slice_of(self.vault_pathspec.as_slice(), 0, self.vault_pathspec.len());
        }
        let mut r = slice_of(self.vault_pathspec.as_slice(), 0, self.vault_pathspec.len());
        r.push('/');
        push_all(&mut r, suffix.as_slice());
        assert(r@ =~= self@.pathspec + seq!['/'] + suffix@);
        r
    }

    /// A repository-relative path as a vault-relative one, `None` outside the vault.
    pub fn vault_relative_path(&self, repo_relative_path: &str) -> (r: Option<String>)
        ensures
            match r {
                Some(s) => vault_relative(self@.pathspec, repo_relative_path@) == Some(s@),
                None => vault_relative(self@.pathspec, repo_relative_path@) is None,
            },
    {
        let p = chars_of(repo_relative_path);
        match self.vault_relative_chars(p.as_slice()) {
            Some(v) => Some(string_of(v.as_slice())),
            None => None,
        }
    }

    pub fn vault_relative_chars(&self, p: &[char]) -> (r: Option<Vec<char>>)
        ensures
            match r {
                Some(v) => vault_relative(self@.pathspec, p@) == Some(v@),
                None => vault_relative(self@.pathspec, p@) is None,
            },
    {
        let r = normalize_git_path_chars(p);
        let n = self.vault_pathspec.len();
        if n == 0 {
            return Some(r);
        }
        if has_prefix(r.as_slice(), self.vault_pathspec.as_slice()) && r.len() > n && r[n] == '/' {
            Some(slice_of(r.as_slice(), n + 1, r.len()))
        } else {
            None
        }
    }
}

/// What Settings shows of a vault's Git context.
pub struct GitWorkspaceInfo {
    pub vault_root: String,
    pub git_root: Option<String>,
    pub vault_pathspec: Option<String>,
    pub git_root_relation: String,
    pub resolution_failure: Option<String>,
}

/// The Git context of a vault from the outcome of resolving its workspace:
/// a workspace, no work tree (`Ok(None)`), or a failure category.
pub fn git_workspace_info(vault_root: &str, resolved: Result<Option<GitWorkspace>, String>) -> (r:
    GitWorkspaceInfo)
    ensures
        match resolved {
            Ok(Some(ws)) => {
                &&& r.vault_root@ == ws@.vault_root
                &&& r.git_root matches Some(g) && g@ == ws@.git_root
                &&& r.vault_pathspec matches Some(p) && p@ == ws@.pathspec
                &&& r.git_root_relation@ == ws@.relation()
                &&& r.resolution_failure is None
            },
            Ok(None) => {
                &&& r.vault_root@ == vault_root@
                &&& r.git_root is None
                &&& r.vault_pathspec is None
                &&& r.git_root_relation@ == "none"@
                &&& r.resolution_failure is None
            },
            Err(category) => {
                &&& r.vault_root@ == vault_root@
                &&& r.git_root is None
                &&& r.vault_pathspec is None
                &&& r.git_root_relation@ == "none"@
                &&& r.resolution_failure matches Some(f) && f@ == category@
            },
        },
{
    match resolved {
        Ok(Some(ws)) => GitWorkspaceInfo {
            vault_root: ws.vault_root(),
            git_root: Some(ws.git_root()),
            vault_pathspec: Some(ws.raw_pathspec()),
            git_root_relation: ws.relation(),
            resolution_failure: None,
        },
        Ok(None) => GitWorkspaceInfo {
            vault_root: string_from(vault_root),
            git_root: None,
            vault_pathspec: None,
            git_root_relation: string_from("none"),
            resolution_failure: None,
        },
        Err(category) => GitWorkspaceInfo {
            vault_root: string_from(vault_root),
            git_root: None,
            vault_pathspec: None,
            git_root_relation: string_from("none"),
            resolution_failure: Some(category),
        },
    }
}

pub proof fn lemma_replace_concat(a: Seq<char>, b: Seq<char>, from: char, to: Seq<char>)
    ensures
        replace_char(a + b, from, to) == replace_char(a, from, to) + replace_char(b, from, to),
    decreases b.len(),
{
    if b.len() == 0 {
        assert(a + b =~= a);
        assert(replace_char(a, from, to) + replace_char(b, from, to) =~= replace_char(a, from, to));
    } else {
        lemma_replace_concat(a, b.drop_last(), from, to);
        assert((a + b).drop_last() =~= a + b.drop_last());
        assert((a + b).last() == b.last());
        let tail = if b.last() == from { to } else { seq![b.last()] };
        assert(replace_char(a, from, to) + replace_char(b.drop_last(), from, to) + tail =~= replace_char(a, from, to) + (replace_char(b.drop_last(), from, to) + tail));
    }
}

pub proof fn lemma_replace_absent(s: Seq<char>, from: char, to: Seq<char>)
    requires
        !s.contains(from),
    ensures
        replace_char(s, from, to) == s,
    decreases s.len(),
{
    if s.len() == 0 {
        assert(replace_char(s, from, to) =~= s);
    } else {
        assert(!s.drop_last().contains(from)) by {
            if s.drop_last().contains(from) {
                let i = choose|i: int| 0 <= i < s.drop_last().len() && s.drop_last()[i] == from;
                assert(s[i] == from);
            }
        }
        lemma_replace_absent(s.drop_last(), from, to);
        assert(s.last() != from) by {
            assert(s[s.len() - 1] == s.last());
        }
        assert(s.drop_last() + seq![s.last()] =~= s);
    }
}

/// Mapping a vault-relative path into the repository and back gives the same
/// path in Git form (`/` separators; empty, `.` and `..` parts dropped),
/// whenever the path names something below the vault root. Every
/// `GitWorkspace` is well formed (its type invariant; each of its accessors
/// states `wf` of its view).
pub proof fn law_path_mapping_round_trip(ws: WorkspaceView, p: Seq<char>)
    requires
        ws.wf(),
        path_to_git_string(p).len() > 0,
    ensures
        vault_relative(ws.pathspec, repo_relative(ws.pathspec, p)) == Some(
            normalize_git_path(path_to_git_string(p)),
        ),
{
    let suffix = path_to_git_string(p);
    if ws.pathspec.len() > 0 {
        let ps = ws.pathspec;
        let slash = seq!['/'];
        lemma_replace_concat(ps + slash, suffix, '\\', slash);
        lemma_replace_concat(ps, slash, '\\', slash);
        lemma_replace_absent(ps, '\\', slash);
        assert(!slash.contains('\\'));
        lemma_replace_absent(slash, '\\', slash);
        let r = normalize_git_path(ps + slash + suffix);
        let ns = normalize_git_path(suffix);
        assert(r == ps + slash + ns);
        assert(r.subrange(0, ps.len() as int) =~= ps);
        assert(r[ps.len() as int] == '/');
        assert(r.subrange(ps.len() + 1int, r.len() as int) =~= ns);
    }
}

/// A repository path that the vault accepts lies under the vault's pathspec:
/// in Git form it is the pathspec, `/`, and the vault-relative path given for it.
pub proof fn law_accepted_paths_lie_under_pathspec(pathspec: Seq<char>, repo_path: Seq<char>)
    requires
        vault_relative(pathspec, repo_path) is Some,
    ensures
        pathspec.len() == 0 ==> normalize_git_path(repo_path) == vault_relative(
            pathspec,
            repo_path,
        )->0,
        pathspec.len() > 0 ==> normalize_git_path(repo_path) == pathspec + seq!['/']
            + vault_relative(pathspec, repo_path)->0,
{
    let r = normalize_git_path(repo_path);
    if pathspec.len() > 0 {
        assert(r.subrange(0, pathspec.len() as int) == pathspec);
        assert(r =~= pathspec + seq!['/'] + r.subrange(pathspec.len() + 1int, r.len() as int));
    }
}

/// The workspace of a vault that must be inside a Git work tree.
pub fn require_workspace(resolved: Result<Option<GitWorkspace>, String>) -> (r: Result<
    GitWorkspace,
    String,
>)
    ensures
        match resolved {
            Ok(Some(ws)) => r == Ok::<GitWorkspace, String>(ws),
            Ok(None) => r matches Err(e) && e@ == "Vault is not inside a Git work tree"@,
            Err(e) => r == Err::<GitWorkspace, String>(e),
        },
{
    match resolved {
        Ok(Some(ws)) => Ok(ws),
        Ok(None) => Err(string_from("Vault is not inside a Git work tree")),
        Err(e) => Err(e),
    }
}

/// The workspace of a vault whose activity feed is asked for.
pub fn require_repository(resolved: Result<Option<GitWorkspace>, String>) -> (r: Result<
    GitWorkspace,
    String,
>)
    ensures
        match resolved {
            Ok(Some(ws)) => r == Ok::<GitWorkspace, String>(ws),
            Ok(None) => r matches Err(e) && e@ == "Not a git repository"@,
            Err(e) => r == Err::<GitWorkspace, String>(e),
        },
{
    match resolved {
        Ok(Some(ws)) => Ok(ws),
        Ok(None) => Err(string_from("Not a git repository")),
        Err(e) => Err(e),
    }
}

} // verus!
