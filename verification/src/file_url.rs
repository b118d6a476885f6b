//! The web address of a note on its remote's hosting site.
use vstd::prelude::*;
use vstd::utf8::encode_utf8;
use crate::command::{stderr_or_failure, stderr_or_failure_spec, CommandOutput};
use crate::text::{
    ascii_lower, ascii_lowercase, chars_of, contains, contains_lit, find, find_char,
    join, join_chars, lemma_find_char, lemma_rfind_char, lemma_views_push, push_all, rfind,
    rfind_char, seq_eq, slice_of, split, split_char, starts_with, strip_prefix, strip_suffix,
    string_from, string_of, ends_with, trim, trim_chars, views, char_from_ascii, prefixed,
};
use crate::workspace::{
    path_to_git_string, path_to_git_string_chars, repo_relative, trim_end_matches, GitWorkspace,
};

verus! {

/// The hosting software a remote's web pages follow.
#[derive(PartialEq, Eq, Structural)]
pub enum RemoteWebKind {
    Bitbucket,
    Gitea,
    GitLab,
    Generic,
}

/// The site kind of a host, from its lowercased name.
pub open spec fn web_kind(host: Seq<char>) -> RemoteWebKind {
    let lower = ascii_lower(host);
    if contains(lower, "gitlab"@) {
        RemoteWebKind::GitLab
    } else if contains(lower, "bitbucket"@) {
        RemoteWebKind::Bitbucket
    } else if contains(lower, "gitea"@) || contains(lower, "forgejo"@) || lower == "codeberg.org"@ {
        RemoteWebKind::Gitea
    } else {
        RemoteWebKind::Generic
    }
}

pub fn remote_web_kind(host: &[char]) -> (k: RemoteWebKind)
    ensures
        k == web_kind(host@),
{
    let lower = ascii_lowercase(host);
    let l = lower.as_slice();
    if contains_lit(l, "gitlab") {
        return RemoteWebKind::GitLab;
    }
    if contains_lit(l, "bitbucket") {
        return RemoteWebKind::Bitbucket;
    }
    if contains_lit(l, "gitea") {
        return RemoteWebKind::Gitea;
    }
    if contains_lit(l, "forgejo") {
        return RemoteWebKind::Gitea;
    }
    let codeberg = chars_of("codeberg.org");
    if seq_eq(l, codeberg.as_slice()) {
        return RemoteWebKind::Gitea;
    }
    RemoteWebKind::Generic
}

pub open spec fn strip_prefix_spec(s: Seq<char>, p: Seq<char>) -> Option<Seq<char>> {
    if starts_with(s, p) {
        Some(s.subrange(p.len() as int, s.len() as int))
    } else {
        None
    }
}

/// The host of an authority: what follows its last `@`.
pub open spec fn authority_host(authority: Seq<char>) -> Seq<char> {
    let i = rfind_char(authority, '@');
    if i < 0 {
        authority
    } else {
        authority.subrange(i + 1, authority.len() as int)
    }
}

/// Host and repository path of `authority/path`.
pub open spec fn authority_path_parts(v: Seq<char>) -> Option<(Seq<char>, Seq<char>)> {
    let i = find_char(v, '/');
    if i < 0 {
        None
    } else {
        Some((authority_host(v.subrange(0, i)), v.subrange(i + 1, v.len() as int)))
    }
}

pub open spec fn scheme_rest(t: Seq<char>, a: Seq<char>, b: Seq<char>) -> Option<Seq<char>> {
    match strip_prefix_spec(t, a) {
        Some(r) => Some(r),
        None => strip_prefix_spec(t, b),
    }
}

pub open spec fn http_parts(url: Seq<char>) -> Option<(Seq<char>, Seq<char>)> {
    match scheme_rest(trim(url), "https://"@, "http://"@) {
        Some(rest) => authority_path_parts(rest),
        None => None,
    }
}

pub open spec fn scheme_parts(url: Seq<char>) -> Option<(Seq<char>, Seq<char>)> {
    match scheme_rest(trim(url), "ssh://"@, "git://"@) {
        Some(rest) => authority_path_parts(rest),
        None => None,
    }
}

/// `user@host:path`.
pub open spec fn scp_parts(url: Seq<char>) -> Option<(Seq<char>, Seq<char>)> {
    let t = trim(url);
    let i = find_char(t, '@');
    if i < 0 {
        None
    } else {
        let target = t.subrange(i + 1, t.len() as int);
        let j = find_char(target, ':');
        if j < 0 {
            None
        } else {
            Some((target.subrange(0, j), target.subrange(j + 1, target.len() as int)))
        }
    }
}

/// Host and repository path of a remote URL in any of the forms Git accepts.
pub open spec fn host_and_path(url: Seq<char>) -> Option<(Seq<char>, Seq<char>)> {
    match http_parts(url) {
        Some(p) => Some(p),
        None => match scheme_parts(url) {
            Some(p) => Some(p),
            None => scp_parts(url),
        },
    }
}

/// `s` without leading `c`s.
pub open spec fn trim_start_matches(s: Seq<char>, c: char) -> Seq<char>
    decreases s.len(),
{
    if s.len() > 0 && s[0] == c {
        trim_start_matches(s.drop_first(), c)
    } else {
        s
    }
}

/// The repository path without surrounding slashes and without `.git`.
pub open spec fn clean_repo_path(path: Seq<char>) -> Seq<char> {
    let t = trim_end_matches(trim_start_matches(path, '/'), '/');
    if ends_with(t, ".git"@) {
        t.subrange(0, t.len() - 4)
    } else {
        t
    }
}

/// The web base of a remote: `https://host/path`, with the site kind.
pub open spec fn web_base(url: Seq<char>) -> Option<(Seq<char>, RemoteWebKind)> {
    match host_and_path(url) {
        Some((host, path)) => {
            let clean = clean_repo_path(path);
            if host.len() == 0 || clean.len() == 0 {
                None
            } else {
                Some(("https://"@ + host + "/"@ + clean, web_kind(host)))
            }
        },
        None => None,
    }
}

pub open spec fn hex_upper(d: nat) -> char {
    if d < 10 {
        (('0' as u32) + d) as char
    } else {
        (('A' as u32) + (d - 10)) as char
    }
}

pub open spec fn is_unreserved(b: u8) -> bool {
    ||| (48 <= b && b <= 57)
    ||| (65 <= b && b <= 90)
    ||| (97 <= b && b <= 122)
    ||| b == 45
    ||| b == 46
    ||| b == 95
    ||| b == 126
}

/// Percent-encoding of one byte of a path segment.
pub open spec fn segment_byte(b: u8) -> Seq<char> {
    if is_unreserved(b) {
        seq![(b as u32) as char]
    } else {
        seq!['%', hex_upper((b / 16) as nat), hex_upper((b % 16) as nat)]
    }
}

pub open spec fn encode_segment_bytes(bytes: Seq<u8>) -> Seq<char>
    decreases bytes.len(),
{
    if bytes.len() == 0 {
        seq![]
    } else {
        encode_segment_bytes(bytes.drop_last()) + segment_byte(bytes.last())
    }
}

/// A path segment percent-encoded over its UTF-8 bytes, keeping unreserved bytes.
pub open spec fn encode_segment(seg: Seq<char>) -> Seq<char> {
    encode_segment_bytes(encode_utf8(seg))
}

pub open spec fn encoded_segments(parts: Seq<Seq<char>>) -> Seq<Seq<char>> {
    Seq::new(parts.len(), |i: int| encode_segment(parts[i]))
}

/// Each `/`-separated segment encoded, the separators kept.
pub open spec fn encode_path(path: Seq<char>) -> Seq<char> {
    join(encoded_segments(split_char(path, '/')), "/"@)
}

/// One byte of a URL fragment: space, `#` and `%` escaped, any other byte as
/// the character with that code.
pub open spec fn fragment_byte(b: u8) -> Seq<char> {
    if b == 32 {
        seq!['%', '2', '0']
    } else if b == 35 {
        seq!['%', '2', '3']
    } else if b == 37 {
        seq!['%', '2', '5']
    } else {
        seq![(b as u32) as char]
    }
}

pub open spec fn encode_fragment_bytes(bytes: Seq<u8>) -> Seq<char>
    decreases bytes.len(),
{
    if bytes.len() == 0 {
        seq![]
    } else {
        encode_fragment_bytes(bytes.drop_last()) + fragment_byte(bytes.last())
    }
}

pub open spec fn encode_fragment(value: Seq<char>) -> Seq<char> {
    encode_fragment_bytes(encode_utf8(value))
}

/// The branch shown in URLs: `HEAD` when detached.
pub open spec fn branch_name(value: Seq<char>) -> Seq<char> {
    if value.len() == 0 {
        "HEAD"@
    } else {
        value
    }
}

/// The page of a file on a hosting site.
pub open spec fn site_file_url(
    base: Seq<char>,
    kind: RemoteWebKind,
    branch: Seq<char>,
    path: Seq<char>,
) -> Seq<char> {
    let b = encode_path(branch);
    let p = encode_path(path);
    match kind {
        RemoteWebKind::Bitbucket => base + "/src/"@ + b + "/"@ + p,
        RemoteWebKind::Gitea => base + "/src/branch/"@ + b + "/"@ + p,
        RemoteWebKind::GitLab => base + "/-/blob/"@ + b + "/"@ + p,
        RemoteWebKind::Generic => base + "/blob/"@ + b + "/"@ + p,
    }
}

/// The URL of a file for a remote without a recognised web form.
pub open spec fn fragment_url(remote: Seq<char>, branch: Seq<char>, path: Seq<char>) -> Seq<char> {
    trim(remote) + "#"@ + encode_fragment(branch) + ":"@ + encode_fragment(path)
}

/// The address of a file (repository-relative) at a branch on a remote.
pub open spec fn remote_file_url_spec(remote: Seq<char>, branch: Seq<char>, path: Seq<char>) -> Seq<
    char,
> {
    match web_base(remote) {
        Some((base, kind)) => site_file_url(base, kind, branch, path),
        None => fragment_url(remote, branch, path),
    }
}

/// A file path relative to the vault root: the part of `file` below
/// `vault_root`, or `file` itself when it is already relative.
pub open spec fn vault_relative_path_string(vault_root: Seq<char>, file: Seq<char>) -> Result<
    Seq<char>,
    Seq<char>,
> {
    let root = trim_end_matches(vault_root, '/');
    if !starts_with(file, "/"@) {
        Ok(path_to_git_string(file))
    } else if file == root {
        Ok(seq![])
    } else if starts_with(file, root + "/"@) {
        Ok(path_to_git_string(file.subrange(root.len() + 1int, file.len() as int)))
    } else {
        Err("File is outside the vault"@)
    }
}

/// The repository-relative path of a file of the vault; `None` for the vault root.
pub open spec fn relative_git_path_spec(
    vault_root: Seq<char>,
    pathspec: Seq<char>,
    file: Seq<char>,
) -> Result<Option<Seq<char>>, Seq<char>> {
    match vault_relative_path_string(vault_root, file) {
        Err(e) => Err(e),
        Ok(v) => if v.len() == 0 {
            Ok(None)
        } else {
            Ok(Some(repo_relative(pathspec, v)))
        },
    }
}

fn trim_start_matches_chars(v: &[char], c: char) -> (r: Vec<char>)
    ensures
        r@ == trim_start_matches(v@, c),
{
    let mut i: usize = 0;
    assert(v@.subrange(0, v@.len() as int) =~= v@);
    while i < v.len() && v[i] == c
        invariant
            i <= v@.len(),
            trim_start_matches(v@, c) == trim_start_matches(v@.subrange(i as int, v@.len() as int), c),
        decreases v@.len() - i,
    {
        assert(v@.subrange(i as int, v@.len() as int).drop_first() =~= v@.subrange(i + 1, v@.len() as int));
        i += 1;
    }
    slice_of(v, i, v.len())
}

fn trim_end_matches_chars(v: &[char], c: char) -> (r: Vec<char>)
    ensures
        r@ == trim_end_matches(v@, c),
{
    let mut j = v.len();
    assert(v@.subrange(0, v@.len() as int) =~= v@);
    while j > 0 && v[j - 1] == c
        invariant
            j <= v@.len(),
            trim_end_matches(v@, c) == trim_end_matches(v@.subrange(0, j as int), c),
        decreases j,
    {
        assert(v@.subrange(0, j as int).drop_last() =~= v@.subrange(0, j - 1));
        j -= 1;
    }
    slice_of(v, 0, j)
}

fn strip_lit(v: &[char], p: &str) -> (r: Option<Vec<char>>)
    ensures
        match r {
            Some(x) => strip_prefix_spec(v@, p@) == Some(x@),
            None => strip_prefix_spec(v@, p@) is None,
        },
{
    let pv = chars_of(p);
    strip_prefix(v, pv.as_slice())
}

fn authority_host_chars(a: &[char]) -> (r: Vec<char>)
    ensures
        r@ == authority_host(a@),
{
    proof {
        lemma_rfind_char(a@, '@');
    }
    let n = a.len();
    match rfind(a, '@') {
        None => slice_of(a, 0, n),
        Some(i) => slice_of(a, i + 1, n),
    }
}

fn authority_path_parts_chars(v: &[char]) -> (r: Option<(Vec<char>, Vec<char>)>)
    ensures
        match r {
            Some((h, p)) => authority_path_parts(v@) == Some((h@, p@)),
            None => authority_path_parts(v@) is None,
        },
{
    proof {
        lemma_find_char(v@, '/');
    }
    let n = v.len();
    match find(v, '/') {
        None => None,
        Some(i) => {
            let a = slice_of(v, 0, i);
            Some((authority_host_chars(a.as_slice()), slice_of(v, i + 1, n)))
        },
    }
}

fn scheme_rest_chars(t: &[char], a: &str, b: &str) -> (r: Option<Vec<char>>)
    ensures
        match r {
            Some(x) => scheme_rest(t@, a@, b@) == Some(x@),
            None => scheme_rest(t@, a@, b@) is None,
        },
{
    match strip_lit(t, a) {
        Some(r) => Some(r),
        None => strip_lit(t, b),
    }
}

fn scp_parts_chars(t: &[char]) -> (r: Option<(Vec<char>, Vec<char>)>)
    ensures
        match r {
            Some((h, p)) => scp_parts(t@) == Some((h@, p@)),
            None => scp_parts(t@) is None,
        },
{
    let t = trim_chars(t);
    proof {
        lemma_find_char(t@, '@');
    }
    match find(t.as_slice(), '@') {
        None => None,
        Some(i) => {
            let target = slice_of(t.as_slice(), i + 1, t.len());
            proof {
                lemma_find_char(target@, ':');
            }
            match find(target.as_slice(), ':') {
                None => None,
                Some(j) => Some(
                    (slice_of(target.as_slice(), 0, j), slice_of(target.as_slice(), j + 1, target.len())),
                ),
            }
        },
    }
}

fn host_and_path_chars(url: &[char]) -> (r: Option<(Vec<char>, Vec<char>)>)
    ensures
        match r {
            Some((h, p)) => host_and_path(url@) == Some((h@, p@)),
            None => host_and_path(url@) is None,
        },
{
    let t = trim_chars(url);
    let http = match scheme_rest_chars(t.as_slice(), "https://", "http://") {
        Some(rest) => authority_path_parts_chars(rest.as_slice()),
        None => None,
    };
    if http.is_some() {
        return http;
    }
    let scheme = match scheme_rest_chars(t.as_slice(), "ssh://", "git://") {
        Some(rest) => authority_path_parts_chars(rest.as_slice()),
        None => None,
    };
    if scheme.is_some() {
        return scheme;
    }
    scp_parts_chars(url)
}

fn clean_repo_path_chars(path: &[char]) -> (r: Vec<char>)
    ensures
        r@ == clean_repo_path(path@),
{
    let s = trim_start_matches_chars(path, '/');
    let t = trim_end_matches_chars(s.as_slice(), '/');
    let git = chars_of(".git");
    proof {
        reveal_strlit(".git");
    }
    match strip_suffix(t.as_slice(), git.as_slice()) {
        Some(x) => x,
        None => t,
    }
}

/// The web base of a remote URL and its site kind.
fn remote_web_base(url: &[char]) -> (r: Option<(Vec<char>, RemoteWebKind)>)
    ensures
        match r {
            Some((b, k)) => web_base(url@) == Some((b@, k)),
            None => web_base(url@) is None,
        },
{
    match host_and_path_chars(url) {
        None => None,
        Some((host, path)) => {
            let clean = clean_repo_path_chars(path.as_slice());
            if host.len() == 0 || clean.len() == 0 {
                return None;
            }
            let mut base = chars_of("https://");
            push_all(&mut base, host.as_slice());
            base.push('/');
            push_all(&mut base, clean.as_slice());
            assert(base@ =~= "https://"@ + host@ + "/"@ + clean@) by {
                reveal_strlit("/");
            }
            let kind = remote_web_kind(host.as_slice());
            Some((base, kind))
        },
    }
}

fn hex_char(d: u8) -> (c: char)
    requires
        d < 16,
    ensures
        c == hex_upper(d as nat),
{
    if d < 10 {
        char_from_ascii(48 + d)
    } else {
        char_from_ascii(65 + (d - 10))
    }
}

fn unreserved(b: u8) -> (r: bool)
    ensures
        r == is_unreserved(b),
{
    (48 <= b && b <= 57) || (65 <= b && b <= 90) || (97 <= b && b <= 122) || b == 45 || b == 46
        || b == 95 || b == 126
}

/// The UTF-8 bytes of a sequence of characters.
fn utf8_bytes(v: &[char]) -> (b: Vec<u8>)
    ensures
        b@ == encode_utf8(v@),
{
    let s = string_of(v);
    let bytes = s.as_str().as_bytes();
    vstd::slice::slice_to_vec(bytes)
}

/// A path segment percent-encoded over its UTF-8 bytes.
pub fn encode_segment_chars(seg: &[char]) -> (r: Vec<char>)
    ensures
        r@ == encode_segment(seg@),
{
    let bytes = utf8_bytes(seg);
    let mut r: Vec<char> = Vec::new();
    for i in 0..bytes.len()
        invariant
            r@ == encode_segment_bytes(bytes@.take(i as int)),
    {
        assert(bytes@.take(i + 1).drop_last() =~= bytes@.take(i as int));
        let b = bytes[i];
        if unreserved(b) {
            r.push(char_from_ascii(b));
        } else {
            r.push('%');
            r.push(hex_char(b / 16));
            r.push(hex_char(b % 16));
        }
        assert(r@ =~= encode_segment_bytes(bytes@.take(i + 1)));
    }
    assert(bytes@.take(bytes@.len() as int) =~= bytes@);
    r
}

/// Each `/`-separated segment of a path percent-encoded.
pub fn encode_path_chars(path: &[char]) -> (r: Vec<char>)
    ensures
        r@ == encode_path(path@),
{
    let parts = split(path, '/');
    let mut enc: Vec<Vec<char>> = Vec::new();
    for i in 0..parts.len()
        invariant
            views(parts@) == split_char(path@, '/'),
            views(enc@) == encoded_segments(views(parts@)).take(i as int),
    {
        let e = encode_segment_chars(parts[i].as_slice());
        proof {
            lemma_views_push(enc@, e);
            assert(views(parts@)[i as int] == parts@[i as int]@);
            assert(encoded_segments(views(parts@)).take(i + 1) =~= encoded_segments(views(parts@)).take(i as int).push(e@));
        }
        enc.push(e);
    }
    assert(encoded_segments(views(parts@)).take(parts@.len() as int) =~= encoded_segments(views(parts@)));
    let slash = chars_of("/");
    join_chars(&enc, slash.as_slice())
}

/// A URL fragment part with space, `#` and `%` escaped.
pub fn encode_fragment_chars(value: &[char]) -> (r: Vec<char>)
    ensures
        r@ == encode_fragment(value@),
{
    let bytes = utf8_bytes(value);
    let mut r: Vec<char> = Vec::new();
    for i in 0..bytes.len()
        invariant
            r@ == encode_fragment_bytes(bytes@.take(i as int)),
    {
        assert(bytes@.take(i + 1).drop_last() =~= bytes@.take(i as int));
        let b = bytes[i];
        if b == 32 {
            r.push('%');
            r.push('2');
            r.push('0');
        } else if b == 35 {
            r.push('%');
            r.push('2');
            r.push('3');
        } else if b == 37 {
            r.push('%');
            r.push('2');
            r.push('5');
        } else {
            r.push(char_from_ascii(b));
        }
        assert(r@ =~= encode_fragment_bytes(bytes@.take(i + 1)));
    }
    assert(bytes@.take(bytes@.len() as int) =~= bytes@);
    r
}

fn push_lit_chars(r: &mut Vec<char>, s: &str)
    ensures
        final(r)@ == old(r)@ + s@,
{
    let v = chars_of(s);
    push_all(r, v.as_slice());
}

/// The address of a repository-relative file at a branch on a remote.
pub fn remote_file_url(remote: &str, branch: &str, path: &str) -> (r: String)
    ensures
        r@ == remote_file_url_spec(remote@, branch@, path@),
{
    let remote_v = chars_of(remote);
    let branch_v = chars_of(branch);
    let path_v = chars_of(path);
    match remote_web_base(remote_v.as_slice()) {
        Some((base, kind)) => {
            let b = encode_path_chars(branch_v.as_slice());
            let p = encode_path_chars(path_v.as_slice());
            let mut r = base;
            match kind {
                RemoteWebKind::Bitbucket => push_lit_chars(&mut r, "/src/"),
                RemoteWebKind::Gitea => push_lit_chars(&mut r, "/src/branch/"),
                RemoteWebKind::GitLab => push_lit_chars(&mut r, "/-/blob/"),
                RemoteWebKind::Generic => push_lit_chars(&mut r, "/blob/"),
            }
            push_all(&mut r, b.as_slice());
            push_lit_chars(&mut r, "/");
            push_all(&mut r, p.as_slice());
            string_of(r.as_slice())
        },
        None => {
            let mut r = trim_chars(remote_v.as_slice());
            push_lit_chars(&mut r, "#");
            push_all(&mut r, encode_fragment_chars(branch_v.as_slice()).as_slice());
            push_lit_chars(&mut r, ":");
            push_all(&mut r, encode_fragment_chars(path_v.as_slice()).as_slice());
            string_of(r.as_slice())
        },
    }
}

/// The part of `file` below the vault root.
pub fn vault_relative_path_string_of(vault_root: &str, file: &str) -> (r: Result<String, String>)
    ensures
        match r {
            Ok(s) => vault_relative_path_string(vault_root@, file@) == Ok::<Seq<char>, Seq<char>>(s@),
            Err(e) => vault_relative_path_string(vault_root@, file@) == Err::<Seq<char>, Seq<char>>(e@),
        },
{
    let root_v = chars_of(vault_root);
    let root = trim_end_matches_chars(root_v.as_slice(), '/');
    let f = chars_of(file);
    if !(f.len() > 0 && f[0] == '/') {
        proof {
            reveal_strlit("/");
            if f@.len() > 0 {
                assert(f@.subrange(0, 1)[0] == f@[0]);
            }
        }
        return Ok(string_of(path_to_git_string_chars(f.as_slice()).as_slice()));
    }
    proof {
        reveal_strlit("/");
        assert(f@.subrange(0, 1) =~= "/"@);
    }
    if seq_eq(f.as_slice(), root.as_slice()) {
        return Ok(String::new());
    }
    let mut with_slash = slice_of(root.as_slice(), 0, root.len());
    with_slash.push('/');
    assert(with_slash@ =~= root@ + "/"@);
    match strip_prefix(f.as_slice(), with_slash.as_slice()) {
        Some(rest) => {
            assert(rest@ == f@.subrange(root@.len() + 1int, f@.len() as int));
            Ok(string_of(path_to_git_string_chars(rest.as_slice()).as_slice()))
        },
        None => Err(string_from("File is outside the vault")),
    }
}

/// The repository-relative path of a vault file; `None` for the vault root itself.
pub fn relative_git_path(ws: &GitWorkspace, file: &str) -> (r: Result<Option<String>, String>)
    ensures
        match r {
            Ok(Some(p)) => relative_git_path_spec(ws@.vault_root, ws@.pathspec, file@) == Ok::<
                Option<Seq<char>>,
                Seq<char>,
            >(Some(p@)),
            Ok(None) => relative_git_path_spec(ws@.vault_root, ws@.pathspec, file@) == Ok::<
                Option<Seq<char>>,
                Seq<char>,
            >(None),
            Err(e) => relative_git_path_spec(ws@.vault_root, ws@.pathspec, file@) == Err::<
                Option<Seq<char>>,
                Seq<char>,
            >(e@),
        },
{
    let root = ws.vault_root();
    match vault_relative_path_string_of(root.as_str(), file) {
        Err(e) => Err(e),
        Ok(v) => if v.as_str().is_empty() {
            Ok(None)
        } else {
            Ok(Some(ws.repo_relative_path(v.as_str())))
        },
    }
}

/// The remote names of `git remote` output: its lines, trimmed, blank ones left out.
pub open spec fn remote_names(ls: Seq<Seq<char>>) -> Seq<Seq<char>>
    decreases ls.len(),
{
    if ls.len() == 0 {
        seq![]
    } else {
        let rest = remote_names(ls.drop_last());
        let t = trim(ls.last());
        if t.len() > 0 {
            rest.push(t)
        } else {
            rest
        }
    }
}

/// The remote whose address notes link to: `origin` when there is one, else
/// the first remote.
pub open spec fn preferred_remote(names: Seq<Seq<char>>) -> Option<Seq<char>> {
    if names.contains("origin"@) {
        Some("origin"@)
    } else if names.len() > 0 {
        Some(names[0])
    } else {
        None
    }
}

/// The remote to link to, from the outcome of `git remote`.
pub fn primary_remote(remotes: Result<CommandOutput, String>) -> (r: Result<Option<String>, String>)
    ensures
        match remotes {
            Err(e) => r matches Err(m) && m@ == "Failed to read remotes: "@ + e@,
            Ok(o) => if o.success {
                r matches Ok(n) && match n {
                    Some(name) => preferred_remote(remote_names(crate::text::lines(o.stdout@)))
                        == Some(name@),
                    None => preferred_remote(remote_names(crate::text::lines(o.stdout@))) is None,
                }
            } else {
                r matches Ok(None)
            },
        },
{
    let o = match remotes {
        Err(e) => return Err(prefixed("Failed to read remotes: ", e.as_str())),
        Ok(o) => o,
    };
    if !o.success {
        return Ok(None);
    }
    let ls = crate::text::lines_of(chars_of(o.stdout.as_str()).as_slice());
    let ghost lv = crate::text::lines(o.stdout@);
    let origin = chars_of("origin");
    let mut names: Vec<Vec<char>> = Vec::new();
    let mut has_origin = false;
    for i in 0..ls.len()
        invariant
            views(ls@) == lv,
            origin@ == "origin"@,
            views(names@) == remote_names(lv.take(i as int)),
            has_origin == views(names@).contains("origin"@),
    {
        proof {
            assert(lv.take(i + 1).drop_last() =~= lv.take(i as int));
            assert(lv.take(i + 1).last() == ls@[i as int]@);
        }
        let t = trim_chars(ls[i].as_slice());
        if t.len() > 0 {
            let is_origin = seq_eq(t.as_slice(), origin.as_slice());
            proof {
                lemma_views_push(names@, t);
                let old_names = views(names@);
                let new_names = old_names.push(t@);
                assert(new_names.contains("origin"@) == (old_names.contains("origin"@) || t@
                    == "origin"@)) by {
                    if new_names.contains("origin"@) && !old_names.contains("origin"@) {
                        let k = choose|k: int| 0 <= k < new_names.len() && new_names[k] == "origin"@;
                        if k < old_names.len() {
                            assert(old_names[k] == new_names[k]);
                        }
                    }
                    if old_names.contains("origin"@) {
                        let k = choose|k: int| 0 <= k < old_names.len() && old_names[k] == "origin"@;
                        assert(new_names[k] == old_names[k]);
                    }
                    if t@ == "origin"@ {
                        assert(new_names[old_names.len() as int] == t@);
                    }
                }
            }
            names.push(t);
            has_origin = has_origin || is_origin;
        }
    }
    proof {
        assert(lv.take(ls@.len() as int) =~= lv);
    }
    if has_origin {
        Ok(Some(string_from("origin")))
    } else if names.len() > 0 {
        assert(views(names@)[0] == names@[0]@);
        Ok(Some(string_of(names[0].as_slice())))
    } else {
        Ok(None)
    }
}

/// The URL of a remote from `git remote get-url`: `None` when Git failed or
/// printed nothing.
pub fn remote_url(outcome: Result<CommandOutput, String>) -> (r: Result<Option<String>, String>)
    ensures
        match outcome {
            Err(e) => r matches Err(m) && m@ == "Failed to read remote URL: "@ + e@,
            Ok(o) => if o.success && trim(o.stdout@).len() > 0 {
                r matches Ok(Some(u)) && u@ == trim(o.stdout@)
            } else {
                r matches Ok(None)
            },
        },
{
    match outcome {
        Err(e) => Err(prefixed("Failed to read remote URL: ", e.as_str())),
        Ok(o) => {
            if !o.success {
                return Ok(None);
            }
            let t = crate::text::trim_string(o.stdout.as_str());
            if t.as_str().is_empty() {
                Ok(None)
            } else {
                Ok(Some(t))
            }
        },
    }
}

/// The branch to link to, from `git branch --show-current`.
pub fn current_ref_name(outcome: Result<CommandOutput, String>) -> (r: Result<String, String>)
    ensures
        match outcome {
            Err(e) => r matches Err(m) && m@ == "Failed to get branch: "@ + e@,
            Ok(o) => if o.success {
                r matches Ok(b) && b@ == branch_name(trim(o.stdout@))
            } else {
                r matches Err(m) && m@ == stderr_or_failure_spec("git branch"@, o.stderr@)
            },
        },
{
    match outcome {
        Err(e) => Err(prefixed("Failed to get branch: ", e.as_str())),
        Ok(o) => {
            if !o.success {
                return Err(stderr_or_failure("git branch", &o));
            }
            let b = crate::text::trim_string(o.stdout.as_str());
            if b.as_str().is_empty() {
                Ok(string_from("HEAD"))
            } else {
                Ok(b)
            }
        },
    }
}

/// The web address of a vault file: `None` for the vault root or when there is
/// no remote; a site page for recognised hosts, else the remote URL with a
/// `#branch:path` fragment. `branch` is what `current_ref_name` gave.
pub fn git_file_url(ws: &GitWorkspace, file_path: &str, remote_url: Option<&str>, branch: &str) -> (r:
    Result<Option<String>, String>)
    ensures
        match relative_git_path_spec(ws@.vault_root, ws@.pathspec, file_path@) {
            Err(e) => r matches Err(m) && m@ == e,
            Ok(None) => r matches Ok(None),
            Ok(Some(path)) => match remote_url {
                None => r matches Ok(None),
                Some(remote) => r matches Ok(Some(u)) && u@ == remote_file_url_spec(
                    remote@,
                    branch@,
                    path,
                ),
            },
        },
{
    let relative = match relative_git_path(ws, file_path) {
        Err(e) => return Err(e),
        Ok(None) => return Ok(None),
        Ok(Some(p)) => p,
    };
    match remote_url {
        None => Ok(None),
        Some(remote) => Ok(Some(remote_file_url(remote, branch, relative.as_str()))),
    }
}

proof fn lemma_trim_unchanged(s: Seq<char>)
    requires
        s.len() > 0,
        !crate::text::is_whitespace(s[0]),
        !crate::text::is_whitespace(s.last()),
    ensures
        trim(s) == s,
{
}

/// `authority/path` where the authority ends in `host` and holds no `/`.
proof fn lemma_authority_split(before: Seq<char>, host: Seq<char>, path: Seq<char>)
    requires
        !before.contains('/'),
        !host.contains('/'),
        !host.contains('@'),
        before.len() == 0 || before.last() == '@',
    ensures
        authority_path_parts(before + host + "/"@ + path) == Some((host, path)),
{
    reveal_strlit("/");
    let v = before + host + "/"@ + path;
    let i: int = (before.len() + host.len()) as int;
    assert(v[i] == '/');
    assert forall|k: int| 0 <= k < v.len() && k < i implies v[k] != '/' by {
        if k < before.len() {
            assert(v[k] == before[k]);
        } else {
            assert(v[k] == host[k - before.len()]);
        }
    }
    crate::text::lemma_find_char_is(v, '/', i);
    let a = v.subrange(0, i);
    assert(a =~= before + host);
    let j: int = before.len() - 1;
    assert forall|k: int| 0 <= k < a.len() && k > j implies a[k] != '@' by {
        assert(a[k] == host[k - before.len()]);
    }
    lemma_rfind_char(a, '@');
    let r = rfind_char(a, '@');
    if r > j {
        assert(a[r] == '@');
    }
    if j >= 0 && r < j {
        assert(a[j] == '@');
    }
    if j >= 0 {
        assert(a.subrange(j + 1, a.len() as int) =~= host);
    } else {
        assert(r == -1);
    }
    assert(v.subrange(i + 1, v.len() as int) =~= path);
}

/// A credential written into an `https` remote, as in
/// `https://<credential>@<host>/<path>`, never reaches a note's address: the
/// address is the one the same remote gives without it, for every branch and
/// note path. It holds whenever the remote has a web form (a host, and a
/// repository path that is more than slashes and `.git`).
pub proof fn law_credentials_never_reach_note_urls(
    credential: Seq<char>,
    host: Seq<char>,
    path: Seq<char>,
    branch: Seq<char>,
    file: Seq<char>,
)
    requires
        !credential.contains('/'),
        !host.contains('/'),
        !host.contains('@'),
        host.len() > 0,
        clean_repo_path(path).len() > 0,
        path.len() > 0 && !crate::text::is_whitespace(path.last()),
    ensures
        remote_file_url_spec("https://"@ + credential + "@"@ + host + "/"@ + path, branch, file)
            == remote_file_url_spec("https://"@ + host + "/"@ + path, branch, file),
{
    reveal_strlit("https://");
    reveal_strlit("@");
    reveal_strlit("/");
    let with_cred = "https://"@ + credential + "@"@ + host + "/"@ + path;
    let plain = "https://"@ + host + "/"@ + path;
    assert(with_cred.last() == path.last());
    assert(plain.last() == path.last());
    lemma_trim_unchanged(with_cred);
    lemma_trim_unchanged(plain);
    let cred_rest = credential + "@"@ + host + "/"@ + path;
    let plain_rest = host + "/"@ + path;
    assert(with_cred.subrange(0, 8) =~= "https://"@);
    assert(with_cred.subrange(8, with_cred.len() as int) =~= cred_rest);
    assert(plain.subrange(0, 8) =~= "https://"@);
    assert(plain.subrange(8, plain.len() as int) =~= plain_rest);
    let before = credential + "@"@;
    assert(!before.contains('/')) by {
        assert forall|k: int| 0 <= k < before.len() implies before[k] != '/' by {
            if k < credential.len() {
                assert(before[k] == credential[k]);
            }
        }
    }
    assert(before + host + "/"@ + path =~= cred_rest);
    lemma_authority_split(before, host, path);
    assert(seq![] + host + "/"@ + path =~= plain_rest);
    lemma_authority_split(seq![], host, path);
}

/// The characters that a percent-encoded path segment may hold: unreserved
/// ASCII and `%`.
pub open spec fn url_safe(c: char) -> bool {
    ||| ('0' <= c && c <= '9')
    ||| ('A' <= c && c <= 'Z')
    ||| ('a' <= c && c <= 'z')
    ||| c == '-' || c == '.' || c == '_' || c == '~' || c == '%'
}

proof fn lemma_segment_bytes_safe(bytes: Seq<u8>)
    ensures
        forall|k: int|
            0 <= k < encode_segment_bytes(bytes).len() ==> url_safe(
                #[trigger] encode_segment_bytes(bytes)[k],
            ),
    decreases bytes.len(),
{
    if bytes.len() > 0 {
        lemma_segment_bytes_safe(bytes.drop_last());
        let prev = encode_segment_bytes(bytes.drop_last());
        let b = bytes.last();
        let tail = segment_byte(b);
        let hi = (b / 16) as nat;
        let lo = (b % 16) as nat;
        assert(hi < 16 && lo < 16);
        assert forall|k: int| 0 <= k < tail.len() implies url_safe(#[trigger] tail[k]) by {
            if !is_unreserved(b) {
                if k == 1 {
                    assert(hi < 10 ==> tail[k] == (('0' as u32) + hi) as char);
                    assert(hi >= 10 ==> tail[k] == (('A' as u32) + (hi - 10)) as char);
                }
                if k == 2 {
                    assert(lo < 10 ==> tail[k] == (('0' as u32) + lo) as char);
                    assert(lo >= 10 ==> tail[k] == (('A' as u32) + (lo - 10)) as char);
                }
            }
        }
        let all = encode_segment_bytes(bytes);
        assert(all == prev + tail);
        assert forall|k: int| 0 <= k < all.len() implies url_safe(#[trigger] all[k]) by {
            if k < prev.len() {
                assert(all[k] == prev[k]);
            } else {
                assert(all[k] == tail[k - prev.len()]);
            }
        }
    }
}

/// A percent-encoded path segment holds only unreserved ASCII and `%`: no
/// space, no `/`, nothing that a URL path would read otherwise.
pub proof fn law_encoded_segment_is_url_safe(seg: Seq<char>)
    ensures
        forall|k: int|
            0 <= k < encode_segment(seg).len() ==> url_safe(#[trigger] encode_segment(seg)[k]),
{
    lemma_segment_bytes_safe(encode_utf8(seg));
}

/// A remote's web pages do not depend on how Git reaches it: the `https`,
/// `http`, `ssh` (with a user) and `git` URLs of one host and repository path,
/// and the scp-like `git@<host>:<path>`, give every note the same address. It
/// holds whenever the remote has a web form (a host, and a repository path that
/// is more than slashes and `.git`).
pub proof fn law_transport_does_not_change_note_urls(
    host: Seq<char>,
    path: Seq<char>,
    branch: Seq<char>,
    file: Seq<char>,
)
    requires
        !host.contains('/'),
        !host.contains('@'),
        !host.contains(':'),
        host.len() > 0,
        clean_repo_path(path).len() > 0,
        path.len() > 0 && !crate::text::is_whitespace(path.last()),
    ensures
        remote_file_url_spec("http://"@ + host + "/"@ + path, branch, file)
            == remote_file_url_spec("https://"@ + host + "/"@ + path, branch, file),
        remote_file_url_spec("ssh://git@"@ + host + "/"@ + path, branch, file)
            == remote_file_url_spec("https://"@ + host + "/"@ + path, branch, file),
        remote_file_url_spec("git://"@ + host + "/"@ + path, branch, file)
            == remote_file_url_spec("https://"@ + host + "/"@ + path, branch, file),
        remote_file_url_spec("git@"@ + host + ":"@ + path, branch, file)
            == remote_file_url_spec("https://"@ + host + "/"@ + path, branch, file),
{
    reveal_strlit("https://");
    reveal_strlit("http://");
    reveal_strlit("ssh://");
    reveal_strlit("git://");
    reveal_strlit("ssh://git@");
    reveal_strlit("git@");
    reveal_strlit("@");
    reveal_strlit("/");
    reveal_strlit(":");
    let rest = host + "/"@ + path;
    lemma_authority_split(seq![], host, path);
    assert(seq![] + host + "/"@ + path =~= rest);
    let https = "https://"@ + rest;
    assert(https.last() == path.last());
    lemma_trim_unchanged(https);
    assert(https.subrange(0, 8) =~= "https://"@);
    assert(https.subrange(8, https.len() as int) =~= rest);
    assert(http_parts(https) == Some((host, path)));
    let http = "http://"@ + rest;
    assert(http.last() == path.last());
    lemma_trim_unchanged(http);
    assert(http.subrange(0, 7) =~= "http://"@);
    assert(http.subrange(7, http.len() as int) =~= rest);
    assert(http[4] == ':');
    assert(!starts_with(http, "https://"@)) by {
        if starts_with(http, "https://"@) {
            assert(http.subrange(0, 8)[4] == http[4]);
        }
    }
    assert(http_parts(http) == Some((host, path)));
    let ssh_rest = "git@"@ + host + "/"@ + path;
    lemma_authority_split("git@"@, host, path);
    let ssh = "ssh://"@ + ssh_rest;
    assert(ssh.last() == path.last());
    lemma_trim_unchanged(ssh);
    assert(ssh.subrange(0, 6) =~= "ssh://"@);
    assert(ssh.subrange(6, ssh.len() as int) =~= ssh_rest);
    assert(ssh =~= "ssh://git@"@ + host + "/"@ + path);
    assert(!starts_with(ssh, "https://"@)) by {
        if starts_with(ssh, "https://"@) {
            assert(ssh.subrange(0, 8)[0] == ssh[0]);
        }
    }
    assert(!starts_with(ssh, "http://"@)) by {
        if starts_with(ssh, "http://"@) {
            assert(ssh.subrange(0, 7)[0] == ssh[0]);
        }
    }
    assert(http_parts(ssh) is None);
    assert(scheme_parts(ssh) == Some((host, path)));
    let git = "git://"@ + rest;
    assert(git.last() == path.last());
    lemma_trim_unchanged(git);
    assert(git.subrange(0, 6) =~= "git://"@);
    assert(git.subrange(6, git.len() as int) =~= rest);
    assert(!starts_with(git, "https://"@)) by {
        if starts_with(git, "https://"@) {
            assert(git.subrange(0, 8)[0] == git[0]);
        }
    }
    assert(!starts_with(git, "http://"@)) by {
        if starts_with(git, "http://"@) {
            assert(git.subrange(0, 7)[0] == git[0]);
        }
    }
    assert(!starts_with(git, "ssh://"@)) by {
        if starts_with(git, "ssh://"@) {
            assert(git.subrange(0, 6)[0] == git[0]);
        }
    }
    assert(http_parts(git) is None);
    assert(scheme_parts(git) == Some((host, path)));
    let scp = "git@"@ + host + ":"@ + path;
    assert(scp.last() == path.last());
    lemma_trim_unchanged(scp);
    assert(scp[3] == '@');
    assert(!starts_with(scp, "https://"@)) by {
        if starts_with(scp, "https://"@) {
            assert(scp.subrange(0, 8)[0] == scp[0]);
        }
    }
    assert(!starts_with(scp, "http://"@)) by {
        if starts_with(scp, "http://"@) {
            assert(scp.subrange(0, 7)[0] == scp[0]);
        }
    }
    assert(!starts_with(scp, "ssh://"@)) by {
        if starts_with(scp, "ssh://"@) {
            assert(scp.subrange(0, 6)[0] == scp[0]);
        }
    }
    assert(!starts_with(scp, "git://"@)) by {
        if starts_with(scp, "git://"@) {
            assert(scp.subrange(0, 6)[3] == scp[3]);
        }
    }
    assert(http_parts(scp) is None);
    assert(scheme_parts(scp) is None);
    crate::text::lemma_find_char_is(scp, '@', 3);
    let target = host + ":"@ + path;
    assert(scp.subrange(4, scp.len() as int) =~= target);
    let j: int = host.len() as int;
    assert(target[j] == ':');
    assert forall|k: int| 0 <= k < j implies target[k] != ':' by {
        assert(target[k] == host[k]);
    }
    crate::text::lemma_find_char_is(target, ':', j);
    assert(target.subrange(0, j) =~= host);
    assert(target.subrange(j + 1, target.len() as int) =~= path);
    assert(scp_parts(scp) == Some((host, path)));
    assert("https://"@ + host + "/"@ + path =~= https);
    assert("http://"@ + host + "/"@ + path =~= http);
    assert("git://"@ + host + "/"@ + path =~= git);
    assert(host_and_path(https) == Some((host, path)));
    assert(host_and_path(http) == Some((host, path)));
    assert(host_and_path(ssh) == Some((host, path)));
    assert(host_and_path(git) == Some((host, path)));
    assert(host_and_path(scp) == Some((host, path)));
}

} // verus!
