//! Character-sequence utilities with their mathematical meaning.
use vstd::prelude::*;

verus! {

/// `String::push` appends one character.
pub assume_specification[ String::push ](s: &mut String, ch: char)
    ensures
        final(s)@ == old(s)@.push(ch),
;

/// Unicode `White_Space`, the set that `char::is_whitespace` tests.
pub open spec fn is_whitespace(c: char) -> bool {
    ||| ('\t' <= c && c <= '\r')
    ||| c == ' '
    ||| c == '\u{85}'
    ||| c == '\u{A0}'
    ||| c == '\u{1680}'
    ||| ('\u{2000}' <= c && c <= '\u{200A}')
    ||| c == '\u{2028}'
    ||| c == '\u{2029}'
    ||| c == '\u{202F}'
    ||| c == '\u{205F}'
    ||| c == '\u{3000}'
}

pub fn whitespace(c: char) -> (b: bool)
    ensures
        b == is_whitespace(c),
{
    ('\t' <= c && c <= '\r') || c == ' ' || c == '\u{85}' || c == '\u{A0}' || c == '\u{1680}'
        || ('\u{2000}' <= c && c <= '\u{200A}') || c == '\u{2028}' || c == '\u{2029}'
        || c == '\u{202F}' || c == '\u{205F}' || c == '\u{3000}'
}

/// `s` without its leading whitespace.
pub open spec fn trim_start(s: Seq<char>) -> Seq<char>
    decreases s.len(),
{
    if s.len() > 0 && is_whitespace(s[0]) {
        trim_start(s.drop_first())
    } else {
        s
    }
}

/// `s` without its trailing whitespace.
pub open spec fn trim_end(s: Seq<char>) -> Seq<char>
    decreases s.len(),
{
    if s.len() > 0 && is_whitespace(s.last()) {
        trim_end(s.drop_last())
    } else {
        s
    }
}

/// `s` without leading and trailing whitespace (`str::trim`).
pub open spec fn trim(s: Seq<char>) -> Seq<char> {
    trim_end(trim_start(s))
}

pub open spec fn starts_with(s: Seq<char>, p: Seq<char>) -> bool {
    p.len() <= s.len() && s.subrange(0, p.len() as int) == p
}

pub open spec fn ends_with(s: Seq<char>, p: Seq<char>) -> bool {
    p.len() <= s.len() && s.subrange(s.len() - p.len(), s.len() as int) == p
}

/// `p` occurs in `s` starting at index `i`.
pub open spec fn occurs_at(s: Seq<char>, p: Seq<char>, i: int) -> bool {
    0 <= i && i + p.len() <= s.len() && s.subrange(i, i + p.len()) == p
}

/// `str::contains` with a string pattern.
pub open spec fn contains(s: Seq<char>, p: Seq<char>) -> bool {
    exists|i: int| occurs_at(s, p, i)
}

/// Index of the first `c` in `s`, or -1.
pub open spec fn find_char(s: Seq<char>, c: char) -> int
    decreases s.len(),
{
    if s.len() == 0 {
        -1
    } else if s[0] == c {
        0
    } else {
        let r = find_char(s.drop_first(), c);
        if r < 0 {
            -1
        } else {
            r + 1
        }
    }
}

/// Index of the last `c` in `s`, or -1.
pub open spec fn rfind_char(s: Seq<char>, c: char) -> int
    decreases s.len(),
{
    if s.len() == 0 {
        -1
    } else if s.last() == c {
        s.len() - 1
    } else {
        rfind_char(s.drop_last(), c)
    }
}

pub proof fn lemma_find_char(s: Seq<char>, c: char)
    ensures
        -1 <= find_char(s, c) < s.len(),
        find_char(s, c) >= 0 ==> s[find_char(s, c)] == c,
        forall|k: int| 0 <= k < s.len() && (find_char(s, c) < 0 || k < find_char(s, c)) ==> s[k] != c,
    decreases s.len(),
{
    if s.len() > 0 && s[0] != c {
        lemma_find_char(s.drop_first(), c);
        assert forall|k: int| 0 <= k < s.len() && (find_char(s, c) < 0 || k < find_char(s, c)) implies s[k] != c by {
            if k > 0 {
                assert(s[k] == s.drop_first()[k - 1]);
            }
        }
    }
}

/// A first occurrence is determined by its two defining facts.
pub proof fn lemma_find_char_is(s: Seq<char>, c: char, i: int)
    requires
        -1 <= i < s.len(),
        i >= 0 ==> s[i] == c,
        forall|k: int| 0 <= k < s.len() && (i < 0 || k < i) ==> s[k] != c,
    ensures
        find_char(s, c) == i,
{
    lemma_find_char(s, c);
    let f = find_char(s, c);
    if f >= 0 && (i < 0 || f < i) {
        assert(s[f] != c);
    }
    if i >= 0 && (f < 0 || i < f) {
        assert(s[i] != c);
    }
}

pub proof fn lemma_rfind_char(s: Seq<char>, c: char)
    ensures
        -1 <= rfind_char(s, c) < s.len(),
        rfind_char(s, c) >= 0 ==> s[rfind_char(s, c)] == c,
        forall|k: int| 0 <= k < s.len() && k > rfind_char(s, c) ==> s[k] != c,
    decreases s.len(),
{
    if s.len() > 0 && s.last() != c {
        lemma_rfind_char(s.drop_last(), c);
        assert forall|k: int| 0 <= k < s.len() && k > rfind_char(s, c) implies s[k] != c by {
            if k < s.len() - 1 {
                assert(s[k] == s.drop_last()[k]);
            }
        }
    }
}

pub proof fn lemma_rfind_char_is(s: Seq<char>, c: char, i: int)
    requires
        -1 <= i < s.len(),
        i >= 0 ==> s[i] == c,
        forall|k: int| 0 <= k < s.len() && k > i ==> s[k] != c,
    ensures
        rfind_char(s, c) == i,
{
    lemma_rfind_char(s, c);
    let f = rfind_char(s, c);
    if f > i {
        assert(s[f] != c);
    }
    if i > f {
        assert(s[i] != c);
    }
}

/// The characters of `s`, in order.
pub fn chars_of(s: &str) -> (v: Vec<char>)
    ensures
        v@ == s@,
{
    let mut v: Vec<char> = Vec::new();
    for c in it: s.chars()
        invariant
            v@ == it.seq().take(it.index() as int),
    {
        v.push(c);
    }
    v
}

/// A `String` holding the characters of `v`.
pub fn string_of(v: &[char]) -> (s: String)
    ensures
        s@ == v@,
{
    let mut s = String::new();
    for i in 0..v.len()
        invariant
            s@ == v@.take(i as int),
    {
        s.push(v[i]);
    }
    s
}

/// A copy of `v[lo..hi]`.
pub fn slice_of(v: &[char], lo: usize, hi: usize) -> (r: Vec<char>)
    requires
        lo <= hi <= v@.len(),
    ensures
        r@ == v@.subrange(lo as int, hi as int),
{
    let mut r: Vec<char> = Vec::new();
    let mut i = lo;
    while i < hi
        invariant
            lo <= i <= hi <= v@.len(),
            r@ == v@.subrange(lo as int, i as int),
        decreases hi - i,
    {
        r.push(v[i]);
        i += 1;
    }
    r
}

pub fn push_all(r: &mut Vec<char>, b: &[char])
    ensures
        final(r)@ == old(r)@ + b@,
{
    let ghost start = r@;
    for i in 0..b.len()
        invariant
            r@ == start + b@.take(i as int),
    {
        r.push(b[i]);
    }
}

pub fn seq_eq(a: &[char], b: &[char]) -> (r: bool)
    ensures
        r == (a@ == b@),
{
    if a.len() != b.len() {
        return false;
    }
    for i in 0..a.len()
        invariant
            a@.len() == b@.len(),
            forall|k: int| 0 <= k < i ==> a@[k] == b@[k],
    {
        if a[i] != b[i] {
            return false;
        }
    }
    assert(a@ =~= b@);
    true
}

/// Index of the first `c`, or `None`.
pub fn find(v: &[char], c: char) -> (r: Option<usize>)
    ensures
        match r {
            Some(i) => i as int == find_char(v@, c),
            None => find_char(v@, c) == -1,
        },
{
    for i in 0..v.len()
        invariant
            forall|k: int| 0 <= k < i ==> v@[k] != c,
    {
        if v[i] == c {
            proof {
                lemma_find_char_is(v@, c, i as int);
            }
            return Some(i);
        }
    }
    proof {
        lemma_find_char_is(v@, c, -1);
    }
    None
}

/// Index of the last `c`, or `None`.
pub fn rfind(v: &[char], c: char) -> (r: Option<usize>)
    ensures
        match r {
            Some(i) => i as int == rfind_char(v@, c),
            None => rfind_char(v@, c) == -1,
        },
{
    let mut i = v.len();
    while i > 0
        invariant
            i <= v@.len(),
            forall|k: int| i <= k < v@.len() ==> v@[k] != c,
        decreases i,
    {
        if v[i - 1] == c {
            proof {
                lemma_rfind_char_is(v@, c, i - 1);
            }
            return Some(i - 1);
        }
        i -= 1;
    }
    proof {
        lemma_rfind_char_is(v@, c, -1);
    }
    None
}


pub proof fn lemma_trim_start_is(s: Seq<char>, i: int)
    requires
        0 <= i <= s.len(),
        forall|k: int| 0 <= k < i ==> is_whitespace(s[k]),
        i == s.len() || !is_whitespace(s[i]),
    ensures
        trim_start(s) == s.subrange(i, s.len() as int),
    decreases i,
{
    if i == 0 {
        assert(s.subrange(0, s.len() as int) =~= s);
    } else {
        let t = s.drop_first();
        assert forall|k: int| 0 <= k < i - 1 implies is_whitespace(t[k]) by {
            assert(t[k] == s[k + 1]);
        }
        if i - 1 < t.len() {
            assert(t[i - 1] == s[i]);
        }
        lemma_trim_start_is(t, i - 1);
        assert(t.subrange(i - 1, t.len() as int) =~= s.subrange(i, s.len() as int));
    }
}

pub proof fn lemma_trim_end_is(s: Seq<char>, j: int)
    requires
        0 <= j <= s.len(),
        forall|k: int| j <= k < s.len() ==> is_whitespace(s[k]),
        j == 0 || !is_whitespace(s[j - 1]),
    ensures
        trim_end(s) == s.subrange(0, j),
    decreases s.len() - j,
{
    if j == s.len() {
        assert(s.subrange(0, j) =~= s);
    } else {
        let t = s.drop_last();
        assert forall|k: int| j <= k < t.len() implies is_whitespace(t[k]) by {
            assert(t[k] == s[k]);
        }
        if j > 0 {
            assert(t[j - 1] == s[j - 1]);
        }
        lemma_trim_end_is(t, j);
        assert(t.subrange(0, j) =~= s.subrange(0, j));
    }
}

/// `str::trim`.
pub fn trim_chars(v: &[char]) -> (r: Vec<char>)
    ensures
        r@ == trim(v@),
{
    let mut i: usize = 0;
    while i < v.len() && whitespace(v[i])
        invariant
            i <= v@.len(),
            forall|k: int| 0 <= k < i ==> is_whitespace(v@[k]),
        decreases v@.len() - i,
    {
        i += 1;
    }
    proof {
        lemma_trim_start_is(v@, i as int);
    }
    let ghost t = v@.subrange(i as int, v@.len() as int);
    let mut j: usize = v.len();
    while j > i && whitespace(v[j - 1])
        invariant
            i <= j <= v@.len(),
            t == v@.subrange(i as int, v@.len() as int),
            forall|k: int| j <= k < v@.len() ==> is_whitespace(v@[k]),
        decreases j,
    {
        j -= 1;
    }
    proof {
        assert forall|k: int| j - i <= k < t.len() implies is_whitespace(t[k]) by {
            assert(t[k] == v@[k + i]);
        }
        if j > i {
            assert(t[j - i - 1] == v@[j - 1]);
        }
        lemma_trim_end_is(t, j - i);
        assert(t.subrange(0, j - i) =~= v@.subrange(i as int, j as int));
    }
    slice_of(v, i, j)
}

/// `str::trim_start`.
pub fn trim_start_chars(v: &[char]) -> (r: Vec<char>)
    ensures
        r@ == trim_start(v@),
{
    let mut i: usize = 0;
    while i < v.len() && whitespace(v[i])
        invariant
            i <= v@.len(),
            forall|k: int| 0 <= k < i ==> is_whitespace(v@[k]),
        decreases v@.len() - i,
    {
        i += 1;
    }
    proof {
        lemma_trim_start_is(v@, i as int);
    }
    slice_of(v, i, v.len())
}

pub fn has_prefix(v: &[char], p: &[char]) -> (r: bool)
    ensures
        r == starts_with(v@, p@),
{
    if p.len() > v.len() {
        return false;
    }
    for k in 0..p.len()
        invariant
            p@.len() <= v@.len(),
            forall|m: int| 0 <= m < k ==> v@[m] == p@[m],
    {
        if v[k] != p[k] {
            assert(v@.subrange(0, p@.len() as int)[k as int] != p@[k as int]);
            return false;
        }
    }
    assert(v@.subrange(0, p@.len() as int) =~= p@);
    true
}

pub fn has_suffix(v: &[char], p: &[char]) -> (r: bool)
    ensures
        r == ends_with(v@, p@),
{
    if p.len() > v.len() {
        return false;
    }
    let off = v.len() - p.len();
    let mut k: usize = 0;
    while k < p.len()
        invariant
            p@.len() <= v@.len(),
            off == v@.len() - p@.len(),
            v@.len() <= usize::MAX,
            k <= p@.len(),
            forall|m: int| 0 <= m < k ==> v@[off + m] == p@[m],
        decreases p@.len() - k,
    {
        if v[off + k] != p[k] {
            assert(v@.subrange(off as int, v@.len() as int)[k as int] != p@[k as int]);
            return false;
        }
        k += 1;
    }
    assert(v@.subrange(off as int, v@.len() as int) =~= p@);
    true
}

/// `str::strip_prefix`.
pub fn strip_prefix(v: &[char], p: &[char]) -> (r: Option<Vec<char>>)
    ensures
        match r {
            Some(rest) => starts_with(v@, p@) && rest@ == v@.subrange(p@.len() as int, v@.len() as int),
            None => !starts_with(v@, p@),
        },
{
    if has_prefix(v, p) {
        Some(slice_of(v, p.len(), v.len()))
    } else {
        None
    }
}

/// `str::strip_suffix`.
pub fn strip_suffix(v: &[char], p: &[char]) -> (r: Option<Vec<char>>)
    ensures
        match r {
            Some(rest) => ends_with(v@, p@) && rest@ == v@.subrange(0, v@.len() - p@.len()),
            None => !ends_with(v@, p@),
        },
{
    if has_suffix(v, p) {
        Some(slice_of(v, 0, v.len() - p.len()))
    } else {
        None
    }
}

pub fn occurs(v: &[char], p: &[char], i: usize) -> (r: bool)
    requires
        i + p@.len() <= v@.len(),
        v@.len() <= usize::MAX,
    ensures
        r == occurs_at(v@, p@, i as int),
{
    let mut k: usize = 0;
    while k < p.len()
        invariant
            i + p@.len() <= v@.len(),
            v@.len() <= usize::MAX,
            k <= p@.len(),
            forall|m: int| 0 <= m < k ==> v@[i + m] == p@[m],
        decreases p@.len() - k,
    {
        if v[i + k] != p[k] {
            assert(v@.subrange(i as int, i + p@.len())[k as int] != p@[k as int]);
            return false;
        }
        k += 1;
    }
    assert(v@.subrange(i as int, i + p@.len()) =~= p@);
    true
}

/// `str::contains` with a string pattern.
pub fn contains_chars(v: &[char], p: &[char]) -> (r: bool)
    ensures
        r == contains(v@, p@),
{
    if p.len() > v.len() {
        return false;
    }
    if p.len() == 0 {
        assert(v@.subrange(0, 0) =~= p@);
        assert(occurs_at(v@, p@, 0));
        return true;
    }
    let last = v.len() - p.len();
    let mut i: usize = 0;
    while i <= last
        invariant
            last == v@.len() - p@.len(),
            last < v@.len(),
            v@.len() <= usize::MAX,
            forall|m: int| 0 <= m < i ==> !occurs_at(v@, p@, m),
        decreases last + 1 - i,
    {
        if occurs(v, p, i) {
            return true;
        }
        i += 1;
    }
    false
}

/// The views of a sequence of character vectors.
pub open spec fn views(v: Seq<Vec<char>>) -> Seq<Seq<char>> {
    Seq::new(v.len(), |i: int| v[i]@)
}

pub proof fn lemma_views_push(v: Seq<Vec<char>>, x: Vec<char>)
    ensures
        views(v.push(x)) == views(v).push(x@),
{
    assert(views(v.push(x)) =~= views(v).push(x@));
}

/// `str::split` with a single-character separator.
pub open spec fn split_char(s: Seq<char>, c: char) -> Seq<Seq<char>>
    decreases s.len(),
{
    let i = find_char(s, c);
    if i < 0 || i >= s.len() {
        seq![s]
    } else {
        seq![s.subrange(0, i)] + split_char(s.subrange(i + 1, s.len() as int), c)
    }
}

/// `str::splitn(n, c)` for `n >= 1`: at most `n` pieces, the last holding the rest.
pub open spec fn splitn_char(s: Seq<char>, n: nat, c: char) -> Seq<Seq<char>>
    decreases n,
{
    let i = find_char(s, c);
    if n <= 1 || i < 0 || i >= s.len() {
        seq![s]
    } else {
        seq![s.subrange(0, i)] + splitn_char(s.subrange(i + 1, s.len() as int), (n - 1) as nat, c)
    }
}

/// A line without the `\r` of a `\r\n` terminator.
pub open spec fn strip_cr(l: Seq<char>) -> Seq<char> {
    if l.len() > 0 && l.last() == '\r' {
        l.drop_last()
    } else {
        l
    }
}

/// `str::lines`: split at `\n` (dropping a `\r` before it); a final terminator
/// ends the last line rather than starting an empty one.
pub open spec fn lines(s: Seq<char>) -> Seq<Seq<char>>
    decreases s.len(),
{
    if s.len() == 0 {
        seq![]
    } else {
        let i = find_char(s, '\n');
        if i < 0 || i >= s.len() {
            seq![s]
        } else {
            seq![strip_cr(s.subrange(0, i))] + lines(s.subrange(i + 1, s.len() as int))
        }
    }
}

/// The first occurrence of `c` in `s[start..]`, seen from `s`.
proof fn lemma_find_in_tail(s: Seq<char>, c: char, start: int, i: int)
    requires
        0 <= start <= i < s.len(),
        s[i] == c,
        forall|k: int| start <= k < i ==> s[k] != c,
    ensures
        find_char(s.subrange(start, s.len() as int), c) == i - start,
        s.subrange(start, s.len() as int).subrange(0, i - start) == s.subrange(start, i),
        s.subrange(start, s.len() as int).subrange(i - start + 1, s.len() - start) == s.subrange(
            i + 1,
            s.len() as int,
        ),
{
    let t = s.subrange(start, s.len() as int);
    lemma_find_char_is(t, c, i - start);
    assert(t.subrange(0, i - start) =~= s.subrange(start, i));
    assert(t.subrange(i - start + 1, t.len() as int) =~= s.subrange(i + 1, s.len() as int));
}

proof fn lemma_no_find_in_tail(s: Seq<char>, c: char, start: int)
    requires
        0 <= start <= s.len(),
        forall|k: int| start <= k < s.len() ==> s[k] != c,
    ensures
        find_char(s.subrange(start, s.len() as int), c) == -1,
{
    let t = s.subrange(start, s.len() as int);
    lemma_find_char_is(t, c, -1);
}

pub fn split(v: &[char], c: char) -> (r: Vec<Vec<char>>)
    ensures
        views(r@) == split_char(v@, c),
        r@.len() >= 1,
{
    let mut pieces: Vec<Vec<char>> = Vec::new();
    let mut start: usize = 0;
    let mut i: usize = 0;
    proof {
        assert(v@.subrange(0, v@.len() as int) =~= v@);
        assert(views(pieces@) + split_char(v@, c) =~= split_char(v@, c));
    }
    while i < v.len()
        invariant
            start <= i <= v@.len(),
            split_char(v@, c) == views(pieces@) + split_char(v@.subrange(start as int, v@.len() as int), c),
            forall|k: int| start <= k < i ==> v@[k] != c,
        decreases v@.len() - i,
    {
        if v[i] == c {
            let piece = slice_of(v, start, i);
            proof {
                lemma_find_in_tail(v@, c, start as int, i as int);
                let t = v@.subrange(start as int, v@.len() as int);
                assert(split_char(t, c) == seq![piece@] + split_char(v@.subrange(i + 1, v@.len() as int), c));
                lemma_views_push(pieces@, piece);
                assert(views(pieces@) + split_char(t, c) =~= views(pieces@.push(piece)) + split_char(v@.subrange(i + 1, v@.len() as int), c));
            }
            pieces.push(piece);
            start = i + 1;
        }
        i += 1;
    }
    let last = slice_of(v, start, v.len());
    proof {
        lemma_no_find_in_tail(v@, c, start as int);
        lemma_views_push(pieces@, last);
        assert(views(pieces@) + split_char(v@.subrange(start as int, v@.len() as int), c) =~= views(pieces@.push(last)));
    }
    pieces.push(last);
    pieces
}

pub fn splitn(v: &[char], n: usize, c: char) -> (r: Vec<Vec<char>>)
    requires
        n >= 1,
    ensures
        views(r@) == splitn_char(v@, n as nat, c),
{
    let mut pieces: Vec<Vec<char>> = Vec::new();
    let mut start: usize = 0;
    let mut i: usize = 0;
    proof {
        assert(v@.subrange(0, v@.len() as int) =~= v@);
        assert(views(pieces@) + splitn_char(v@, n as nat, c) =~= splitn_char(v@, n as nat, c));
    }
    while i < v.len() && pieces.len() + 1 < n
        invariant
            start <= i <= v@.len(),
            pieces@.len() < n,
            splitn_char(v@, n as nat, c) == views(pieces@) + splitn_char(
                v@.subrange(start as int, v@.len() as int),
                (n - pieces@.len()) as nat,
                c,
            ),
            forall|k: int| start <= k < i ==> v@[k] != c,
        decreases v@.len() - i,
    {
        if v[i] == c {
            let piece = slice_of(v, start, i);
            proof {
                lemma_find_in_tail(v@, c, start as int, i as int);
                let t = v@.subrange(start as int, v@.len() as int);
                let m = (n - pieces@.len()) as nat;
                assert(splitn_char(t, m, c) == seq![piece@] + splitn_char(v@.subrange(i + 1, v@.len() as int), (m - 1) as nat, c));
                lemma_views_push(pieces@, piece);
                assert(views(pieces@) + splitn_char(t, m, c) =~= views(pieces@.push(piece)) + splitn_char(v@.subrange(i + 1, v@.len() as int), (m - 1) as nat, c));
            }
            pieces.push(piece);
            start = i + 1;
        }
        i += 1;
    }
    let last = slice_of(v, start, v.len());
    proof {
        let t = v@.subrange(start as int, v@.len() as int);
        if i == v@.len() {
            lemma_no_find_in_tail(v@, c, start as int);
        }
        assert(splitn_char(t, (n - pieces@.len()) as nat, c) == seq![t]);
        lemma_views_push(pieces@, last);
        assert(views(pieces@) + seq![t] =~= views(pieces@.push(last)));
    }
    pieces.push(last);
    pieces
}

pub fn strip_cr_chars(v: Vec<char>) -> (r: Vec<char>)
    ensures
        r@ == strip_cr(v@),
{
    let mut v = v;
    if v.len() > 0 && v[v.len() - 1] == '\r' {
        v.pop();
    }
    v
}

/// `str::lines`.
pub fn lines_of(v: &[char]) -> (r: Vec<Vec<char>>)
    ensures
        views(r@) == lines(v@),
{
    let mut out: Vec<Vec<char>> = Vec::new();
    let mut start: usize = 0;
    let mut i: usize = 0;
    proof {
        assert(v@.subrange(0, v@.len() as int) =~= v@);
        assert(views(out@) + lines(v@) =~= lines(v@));
    }
    while i < v.len()
        invariant
            start <= i <= v@.len(),
            lines(v@) == views(out@) + lines(v@.subrange(start as int, v@.len() as int)),
            forall|k: int| start <= k < i ==> v@[k] != '\n',
        decreases v@.len() - i,
    {
        if v[i] == '\n' {
            let piece = strip_cr_chars(slice_of(v, start, i));
            proof {
                lemma_find_in_tail(v@, '\n', start as int, i as int);
                let t = v@.subrange(start as int, v@.len() as int);
                assert(lines(t) == seq![piece@] + lines(v@.subrange(i + 1, v@.len() as int)));
                lemma_views_push(out@, piece);
                assert(views(out@) + lines(t) =~= views(out@.push(piece)) + lines(v@.subrange(i + 1, v@.len() as int)));
            }
            out.push(piece);
            start = i + 1;
        }
        i += 1;
    }
    proof {
        lemma_no_find_in_tail(v@, '\n', start as int);
    }
    if start < v.len() {
        let last = slice_of(v, start, v.len());
        proof {
            lemma_views_push(out@, last);
            assert(views(out@) + lines(v@.subrange(start as int, v@.len() as int)) =~= views(out@.push(last)));
        }
        out.push(last);
    } else {
        proof {
            assert(lines(v@.subrange(start as int, v@.len() as int)) =~= Seq::<Seq<char>>::empty());
            assert(views(out@) + Seq::<Seq<char>>::empty() =~= views(out@));
        }
    }
    out
}

/// `s` with every `from` replaced by `to`.
pub open spec fn replace_char(s: Seq<char>, from: char, to: Seq<char>) -> Seq<char>
    decreases s.len(),
{
    if s.len() == 0 {
        seq![]
    } else {
        replace_char(s.drop_last(), from, to) + (if s.last() == from {
            to
        } else {
            seq![s.last()]
        })
    }
}

pub fn replace(v: &[char], from: char, to: &[char]) -> (r: Vec<char>)
    ensures
        r@ == replace_char(v@, from, to@),
{
    let mut r: Vec<char> = Vec::new();
    for i in 0..v.len()
        invariant
            r@ == replace_char(v@.take(i as int), from, to@),
    {
        proof {
            assert(v@.take(i + 1).drop_last() =~= v@.take(i as int));
        }
        if v[i] == from {
            push_all(&mut r, to);
        } else {
            r.push(v[i]);
            assert(r@ =~= replace_char(v@.take(i as int), from, to@) + seq![v@[i as int]]);
        }
    }
    assert(v@.take(v@.len() as int) =~= v@);
    r
}

pub open spec fn is_ascii_upper(c: char) -> bool {
    'A' <= c && c <= 'Z'
}

pub open spec fn is_ascii_digit(c: char) -> bool {
    '0' <= c && c <= '9'
}

pub open spec fn ascii_lower_char(c: char) -> char {
    if is_ascii_upper(c) {
        ((c as u32) + 32) as char
    } else {
        c
    }
}

/// `str::to_ascii_lowercase`.
pub open spec fn ascii_lower(s: Seq<char>) -> Seq<char> {
    s.map_values(|c: char| ascii_lower_char(c))
}

pub fn lower_char(c: char) -> (r: char)
    ensures
        r == ascii_lower_char(c),
{
    if 'A' <= c && c <= 'Z' {
        let code = (c as u32) + 32;
        proof {
            assert(0x61 <= code <= 0x7A);
        }
        char_from_ascii(code as u8)
    } else {
        c
    }
}

/// The character whose code point is the byte `b` (`char::from(u8)`).
pub fn char_from_ascii(b: u8) -> (c: char)
    ensures
        c == (b as u32) as char,
        c as u32 == b as u32,
{
    b as char
}

pub fn ascii_lowercase(v: &[char]) -> (r: Vec<char>)
    ensures
        r@ == ascii_lower(v@),
{
    let mut r: Vec<char> = Vec::new();
    for i in 0..v.len()
        invariant
            r@ == ascii_lower(v@.take(i as int)),
    {
        r.push(lower_char(v[i]));
        assert(r@ =~= ascii_lower(v@.take(i + 1)));
    }
    assert(v@.take(v@.len() as int) =~= v@);
    r
}

/// What `str::to_lowercase` returns for a string: its Unicode lowercase mapping.
pub uninterp spec fn unicode_lowercase(s: Seq<char>) -> Seq<char>;

pub open spec fn is_ascii_text(s: Seq<char>) -> bool {
    forall|i: int| 0 <= i < s.len() ==> (s[i] as u32) < 128
}

/// Calls `str::to_lowercase`. The result is named `unicode_lowercase` of the
/// input; on ASCII input it is the ASCII lowercase mapping.
#[verifier::external_body]
pub(crate) fn to_lowercase(s: &str) -> (r: String)
    ensures
        r@ == unicode_lowercase(s@),
        is_ascii_text(s@) ==> r@ == ascii_lower(s@),
{
    s.to_lowercase()
}

/// Value of a run of ASCII digits.
pub open spec fn digits_value(s: Seq<char>) -> nat
    decreases s.len(),
{
    if s.len() == 0 {
        0
    } else {
        digits_value(s.drop_last()) * 10 + ((s.last() as u32) - ('0' as u32)) as nat
    }
}

pub open spec fn all_digits(s: Seq<char>) -> bool {
    forall|i: int| 0 <= i < s.len() ==> is_ascii_digit(s[i])
}

/// The digits that `FromStr` for an unsigned integer reads: an optional leading `+`
/// is skipped.
pub open spec fn unsigned_digits(s: Seq<char>) -> Seq<char> {
    if s.len() > 0 && s[0] == '+' {
        s.drop_first()
    } else {
        s
    }
}

/// `FromStr` for an unsigned integer type whose largest value is `max`.
pub open spec fn parse_unsigned(s: Seq<char>, max: nat) -> Option<nat> {
    let d = unsigned_digits(s);
    if d.len() > 0 && all_digits(d) && digits_value(d) <= max {
        Some(digits_value(d))
    } else {
        None
    }
}

proof fn lemma_digits_value_prefix(s: Seq<char>, i: int)
    requires
        0 <= i <= s.len(),
        all_digits(s),
    ensures
        digits_value(s.take(i)) <= digits_value(s),
    decreases s.len() - i,
{
    if i < s.len() {
        lemma_digits_value_prefix(s, i + 1);
        assert(s.take(i + 1).drop_last() =~= s.take(i));
    } else {
        assert(s.take(i) =~= s);
    }
}

/// Parses an unsigned integer no larger than `max`.
pub fn parse_unsigned_chars(v: &[char], max: u64) -> (r: Option<u64>)
    ensures
        match r {
            Some(x) => parse_unsigned(v@, max as nat) == Some(x as nat),
            None => parse_unsigned(v@, max as nat) is None,
        },
{
    let start: usize = if v.len() > 0 && v[0] == '+' { 1 } else { 0 };
    let ghost d = unsigned_digits(v@);
    assert(d =~= v@.subrange(start as int, v@.len() as int));
    if start == v.len() {
        return None;
    }
    let mut acc: u64 = 0;
    let mut i: usize = start;
    while i < v.len()
        invariant
            start <= i <= v@.len(),
            start < v@.len(),
            d == v@.subrange(start as int, v@.len() as int),
            d == unsigned_digits(v@),
            all_digits(d.take(i - start)),
            acc as nat == digits_value(d.take(i - start)),
            acc <= max,
        decreases v@.len() - i,
    {
        let c = v[i];
        if !('0' <= c && c <= '9') {
            assert(d[i - start] == c);
            assert(!all_digits(d));
            return None;
        }
        let digit = (c as u32 - '0' as u32) as u64;
        assert(d.take(i - start + 1).drop_last() =~= d.take(i - start));
        assert(d.take(i - start + 1).last() == c);
        if digit > max || acc > (max - digit) / 10 {
            proof {
                if digit <= max {
                    assert(acc * 10 + digit > max) by (nonlinear_arith)
                        requires
                            acc > (max - digit) / 10,
                            digit <= max,
                    ;
                }
                assert(digits_value(d.take(i - start + 1)) == acc * 10 + digit);
                if all_digits(d) {
                    lemma_digits_value_prefix(d, i - start + 1);
                }
            }
            return None;
        }
        proof {
            assert(acc * 10 + digit <= max) by (nonlinear_arith)
                requires
                    acc <= (max - digit) / 10,
                    digit <= max,
            ;
        }
        acc = acc * 10 + digit;
        i += 1;
        assert(all_digits(d.take(i - start)));
    }
    assert(d.take(i - start) =~= d);
    Some(acc)
}

/// `parts` joined with `sep` between consecutive parts (`[..].join(sep)`).
pub open spec fn join(parts: Seq<Seq<char>>, sep: Seq<char>) -> Seq<char>
    decreases parts.len(),
{
    if parts.len() == 0 {
        seq![]
    } else if parts.len() == 1 {
        parts[0]
    } else {
        join(parts.drop_last(), sep) + sep + parts.last()
    }
}

pub fn join_chars(parts: &Vec<Vec<char>>, sep: &[char]) -> (r: Vec<char>)
    ensures
        r@ == join(views(parts@), sep@),
{
    let mut r: Vec<char> = Vec::new();
    for i in 0..parts.len()
        invariant
            r@ == join(views(parts@).take(i as int), sep@),
    {
        proof {
            assert(views(parts@).take(i + 1).drop_last() =~= views(parts@).take(i as int));
        }
        if i > 0 {
            push_all(&mut r, sep);
        } else {
            assert(views(parts@).take(1) =~= seq![parts@[0]@]);
        }
        push_all(&mut r, parts[i].as_slice());
    }
    assert(views(parts@).take(parts@.len() as int) =~= views(parts@));
    r
}

/// A `String` from a string literal's characters.
pub fn string_from(s: &str) -> (r: String)
    ensures
        r@ == s@,
{
    let v = chars_of(s);
    string_of(v.as_slice())
}

/// Whether `v` contains the literal `p`.
pub fn contains_lit(v: &[char], p: &str) -> (r: bool)
    ensures
        r == contains(v@, p@),
{
    let pv = chars_of(p);
    contains_chars(v, pv.as_slice())
}

/// `prefix` followed by `s`.
pub fn prefixed(prefix: &str, s: &str) -> (r: String)
    ensures
        r@ == prefix@ + s@,
{
    let mut r = string_from(prefix);
    let v = chars_of(s);
    let ghost start = r@;
    for i in 0..v.len()
        invariant
            r@ == start + v@.take(i as int),
    {
        r.push(v[i]);
    }
    assert(v@.take(v@.len() as int) =~= v@);
    r
}

/// The characters of `s` trimmed, as a `String`.
pub fn trim_string(s: &str) -> (r: String)
    ensures
        r@ == trim(s@),
{
    let v = chars_of(s);
    let t = trim_chars(v.as_slice());
    string_of(t.as_slice())
}

/// The decimal digit for `d < 10`.
pub open spec fn digit_char(d: nat) -> char {
    (('0' as u32) + d) as char
}

/// Decimal notation of `n` (`Display` for an unsigned integer).
pub open spec fn decimal(n: nat) -> Seq<char>
    decreases n,
{
    if n < 10 {
        seq![digit_char(n)]
    } else {
        decimal(n / 10) + seq![digit_char(n % 10)]
    }
}

pub fn digit(d: u64) -> (c: char)
    requires
        d < 10,
    ensures
        c == digit_char(d as nat),
{
    let code = (48u64 + d) as u8;
    char_from_ascii(code)
}

/// `n.to_string()` for an unsigned integer.
pub fn decimal_string(n: u64) -> (s: String)
    ensures
        s@ == decimal(n as nat),
    decreases n,
{
    if n < 10 {
        let mut s = String::new();
        s.push(digit(n));
        assert(s@ =~= decimal(n as nat));
        s
    } else {
        let mut s = decimal_string(n / 10);
        s.push(digit(n % 10));
        assert(s@ =~= decimal(n as nat));
        s
    }
}

/// Lexicographic order of character sequences (the order of `String`).
pub open spec fn lex_lt(a: Seq<char>, b: Seq<char>) -> bool
    decreases a.len(),
{
    if a.len() == 0 {
        b.len() > 0
    } else if b.len() == 0 {
        false
    } else if a[0] < b[0] {
        true
    } else if a[0] == b[0] {
        lex_lt(a.drop_first(), b.drop_first())
    } else {
        false
    }
}

pub proof fn lemma_lex_irreflexive(a: Seq<char>)
    ensures
        !lex_lt(a, a),
    decreases a.len(),
{
    if a.len() > 0 {
        lemma_lex_irreflexive(a.drop_first());
    }
}

pub proof fn lemma_lex_trichotomy(a: Seq<char>, b: Seq<char>)
    ensures
        a == b || lex_lt(a, b) || lex_lt(b, a),
    decreases a.len(),
{
    if a.len() > 0 && b.len() > 0 && a[0] == b[0] {
        lemma_lex_trichotomy(a.drop_first(), b.drop_first());
        if a.drop_first() == b.drop_first() {
            assert(a =~= seq![a[0]] + a.drop_first());
            assert(b =~= seq![b[0]] + b.drop_first());
        }
    }
    if a.len() == 0 && b.len() == 0 {
        assert(a =~= b);
    }
}

pub proof fn lemma_lex_asymmetric(a: Seq<char>, b: Seq<char>)
    ensures
        !(lex_lt(a, b) && lex_lt(b, a)),
    decreases a.len(),
{
    if a.len() > 0 && b.len() > 0 && a[0] == b[0] {
        lemma_lex_asymmetric(a.drop_first(), b.drop_first());
    }
}

pub proof fn lemma_lex_transitive(a: Seq<char>, b: Seq<char>, c: Seq<char>)
    requires
        lex_lt(a, b),
        lex_lt(b, c),
    ensures
        lex_lt(a, c),
    decreases a.len(),
{
    if a.len() > 0 && b.len() > 0 && c.len() > 0 && a[0] == b[0] && b[0] == c[0] {
        lemma_lex_transitive(a.drop_first(), b.drop_first(), c.drop_first());
    }
}

/// Whether `a` sorts before `b`.
pub fn lex_less(a: &[char], b: &[char]) -> (r: bool)
    ensures
        r == lex_lt(a@, b@),
{
    let mut i: usize = 0;
    assert(a@.subrange(0, a@.len() as int) =~= a@);
    assert(b@.subrange(0, b@.len() as int) =~= b@);
    while i < a.len() && i < b.len() && a[i] == b[i]
        invariant
            i <= a@.len(),
            i <= b@.len(),
            lex_lt(a@, b@) == lex_lt(a@.subrange(i as int, a@.len() as int), b@.subrange(i as int, b@.len() as int)),
        decreases a@.len() - i,
    {
        proof {
            let x = a@.subrange(i as int, a@.len() as int);
            let y = b@.subrange(i as int, b@.len() as int);
            assert(x.drop_first() =~= a@.subrange(i + 1, a@.len() as int));
            assert(y.drop_first() =~= b@.subrange(i + 1, b@.len() as int));
        }
        i += 1;
    }
    proof {
        let x = a@.subrange(i as int, a@.len() as int);
        let y = b@.subrange(i as int, b@.len() as int);
        if i < a@.len() {
            assert(x[0] == a@[i as int]);
        }
        if i < b@.len() {
            assert(y[0] == b@[i as int]);
        }
    }
    if i == a.len() {
        i < b.len()
    } else if i == b.len() {
        false
    } else {
        a[i] < b[i]
    }
}

/// The number of bytes of a character in UTF-8 (`char::len_utf8`).
pub open spec fn utf8_width(c: char) -> nat {
    if (c as u32) < 0x80 {
        1
    } else if (c as u32) < 0x800 {
        2
    } else if (c as u32) < 0x10000 {
        3
    } else {
        4
    }
}

/// The length in bytes of a text in UTF-8 (`str::len`).
pub open spec fn utf8_len(s: Seq<char>) -> nat
    decreases s.len(),
{
    if s.len() == 0 {
        0
    } else {
        utf8_len(s.drop_last()) + utf8_width(s.last())
    }
}

/// How many characters the first `n` bytes of `s` hold, when byte `n` is a
/// character boundary of `s` (`str::is_char_boundary`); `None` otherwise.
pub open spec fn boundary_chars(s: Seq<char>, n: int) -> Option<nat>
    decreases s.len(),
{
    if n == 0 {
        Some(0)
    } else if n < 0 || s.len() == 0 {
        None
    } else {
        match boundary_chars(s.drop_first(), n - utf8_width(s[0])) {
            Some(k) => Some(k + 1),
            None => None,
        }
    }
}

pub fn char_width(c: char) -> (w: usize)
    ensures
        w as nat == utf8_width(c),
{
    let u = c as u32;
    if u < 0x80 {
        1
    } else if u < 0x800 {
        2
    } else if u < 0x10000 {
        3
    } else {
        4
    }
}

/// Whether the text takes fewer than `n` bytes.
pub fn utf8_len_below(v: &[char], n: usize) -> (r: bool)
    requires
        n <= 1024,
    ensures
        r == (utf8_len(v@) < n),
{
    let mut acc: usize = 0;
    let mut j: usize = 0;
    while j < v.len() && acc < n
        invariant
            j <= v@.len(),
            n <= 1024,
            acc as nat == utf8_len(v@.take(j as int)),
            acc < n + 4,
        decreases v@.len() - j,
    {
        assert(v@.take(j + 1).drop_last() =~= v@.take(j as int));
        acc = acc + char_width(v[j]);
        j += 1;
    }
    if acc >= n {
        proof {
            lemma_utf8_len_prefix(v@, j as int);
        }
        false
    } else {
        assert(v@.take(j as int) =~= v@);
        true
    }
}

/// A prefix takes no more bytes than the whole.
pub proof fn lemma_utf8_len_prefix(s: Seq<char>, j: int)
    requires
        0 <= j <= s.len(),
    ensures
        utf8_len(s.take(j)) <= utf8_len(s),
    decreases s.len() - j,
{
    if j < s.len() {
        lemma_utf8_len_prefix(s, j + 1);
        assert(s.take(j + 1).drop_last() =~= s.take(j));
    } else {
        assert(s.take(j) =~= s);
    }
}

/// The number of characters before byte `n` of `v`, when it is a boundary.
pub fn boundary_chars_of(v: &[char], n: usize) -> (r: Option<usize>)
    requires
        n <= 1024,
    ensures
        match r {
            Some(k) => boundary_chars(v@, n as int) == Some(k as nat) && k <= v@.len(),
            None => boundary_chars(v@, n as int) is None,
        },
{
    let mut acc: usize = 0;
    let mut j: usize = 0;
    assert(v@.skip(0) =~= v@);
    while j < v.len() && acc < n
        invariant
            j <= v@.len(),
            n <= 1024,
            acc <= n + 4,
            boundary_chars(v@, n as int) == (match boundary_chars(v@.skip(j as int), n - acc) {
                Some(k) => Some((k + j) as nat),
                None => None::<nat>,
            }),
        decreases v@.len() - j,
    {
        proof {
            let t = v@.skip(j as int);
            assert(t[0] == v@[j as int]);
            assert(t.drop_first() =~= v@.skip(j + 1));
        }
        acc = acc + char_width(v[j]);
        j += 1;
    }
    if acc == n {
        Some(j)
    } else {
        None
    }
}

/// Splitting at the first separator: a leading field without separator comes
/// off whole, and the rest is split into one piece fewer.
pub proof fn lemma_splitn_field(x: Seq<char>, rest: Seq<char>, n: nat, c: char)
    requires
        !x.contains(c),
        n >= 2,
    ensures
        splitn_char(x + seq![c] + rest, n, c) == seq![x] + splitn_char(rest, (n - 1) as nat, c),
{
    let s = x + seq![c] + rest;
    assert forall|k: int| 0 <= k < s.len() && k < x.len() implies s[k] != c by {
        assert(s[k] == x[k]);
    }
    assert(s[x.len() as int] == c);
    lemma_find_char_is(s, c, x.len() as int);
    assert(s.subrange(0, x.len() as int) =~= x);
    assert(s.subrange(x.len() + 1int, s.len() as int) =~= rest);
}

/// The same for `split`: a leading field without separator comes off whole.
pub proof fn lemma_split_field(x: Seq<char>, rest: Seq<char>, c: char)
    requires
        !x.contains(c),
    ensures
        split_char(x + seq![c] + rest, c) == seq![x] + split_char(rest, c),
{
    let s = x + seq![c] + rest;
    assert forall|k: int| 0 <= k < s.len() && k < x.len() implies s[k] != c by {
        assert(s[k] == x[k]);
    }
    assert(s[x.len() as int] == c);
    lemma_find_char_is(s, c, x.len() as int);
    assert(s.subrange(0, x.len() as int) =~= x);
    assert(s.subrange(x.len() + 1int, s.len() as int) =~= rest);
}

/// A text without the separator is one piece.
pub proof fn lemma_split_whole(x: Seq<char>, c: char)
    requires
        !x.contains(c),
    ensures
        split_char(x, c) == seq![x],
{
    assert forall|k: int| 0 <= k < x.len() && -1 < 0 implies x[k] != c by {
        if x[k] == c {
            assert(x.contains(c));
        }
    }
    lemma_find_char_is(x, c, -1);
}

proof fn lemma_digit_char(d: nat)
    requires
        d < 10,
    ensures
        is_ascii_digit(digit_char(d)),
        (digit_char(d) as u32) - ('0' as u32) == d,
        digit_char(d) != '+',
{
    assert(('0' as u32) == 48);
    assert((48 + d) as char as u32 == 48 + d);
}

/// Decimal notation reads back as its number: `n.to_string().parse()` gives
/// `n` for every `n` up to the type's largest value.
pub proof fn lemma_decimal_parses(n: nat, max: nat)
    requires
        n <= max,
    ensures
        parse_unsigned(decimal(n), max) == Some(n),
{
    lemma_decimal_digits(n);
    let d = decimal(n);
    if n < 10 {
        lemma_digit_char(n);
    } else {
        lemma_digit_char(n % 10);
        lemma_decimal_first(n);
    }
    assert(d[0] != '+') by {
        lemma_decimal_first(n);
    }
    assert(unsigned_digits(d) == d);
}

proof fn lemma_decimal_first(n: nat)
    ensures
        decimal(n).len() > 0,
        is_ascii_digit(decimal(n)[0]),
        decimal(n)[0] != '+',
    decreases n,
{
    if n < 10 {
        lemma_digit_char(n);
    } else {
        lemma_decimal_first(n / 10);
        assert(decimal(n)[0] == decimal(n / 10)[0]);
    }
}

proof fn lemma_decimal_digits(n: nat)
    ensures
        decimal(n).len() > 0,
        all_digits(decimal(n)),
        digits_value(decimal(n)) == n,
    decreases n,
{
    if n < 10 {
        lemma_digit_char(n);
        let d = decimal(n);
        assert(d.drop_last() =~= Seq::<char>::empty());
        assert(digits_value(d.drop_last()) == 0);
        assert(d.last() == digit_char(n));
        assert(digits_value(d) == digits_value(d.drop_last()) * 10 + ((d.last() as u32) - ('0' as u32)) as nat);
    } else {
        lemma_decimal_digits(n / 10);
        lemma_digit_char(n % 10);
        let d = decimal(n);
        let p = decimal(n / 10);
        assert(d.drop_last() =~= p);
        assert(d.last() == digit_char(n % 10));
        assert(n == (n / 10) * 10 + n % 10) by (nonlinear_arith);
        assert(digits_value(d) == digits_value(d.drop_last()) * 10 + ((d.last() as u32) - ('0' as u32)) as nat);
        assert(digits_value(p) * 10 == (n / 10) * 10);
        assert forall|i: int| 0 <= i < d.len() implies is_ascii_digit(d[i]) by {
            if i < p.len() {
                assert(d[i] == p[i]);
            }
        }
    }
}

/// A text that neither starts nor ends with whitespace is its own trim.
pub proof fn lemma_trim_fixed(s: Seq<char>)
    requires
        s.len() > 0,
        !is_whitespace(s[0]),
        !is_whitespace(s.last()),
    ensures
        trim(s) == s,
{
}

/// A text takes at least one byte per character.
pub proof fn lemma_utf8_len_at_least(s: Seq<char>)
    ensures
        utf8_len(s) >= s.len(),
    decreases s.len(),
{
    if s.len() > 0 {
        lemma_utf8_len_at_least(s.drop_last());
    }
}

/// Digits hold no other character.
pub proof fn lemma_decimal_without(n: nat, c: char)
    requires
        !is_ascii_digit(c),
    ensures
        !decimal(n).contains(c),
{
    lemma_decimal_digits(n);
    if decimal(n).contains(c) {
        let i = choose|i: int| 0 <= i < decimal(n).len() && decimal(n)[i] == c;
        assert(is_ascii_digit(decimal(n)[i]));
    }
}

} // verus!
