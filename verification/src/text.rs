//! Character-level text operations used by the manifest readers and renderers.
//!
//! Text is modelled as `Seq<char>`; every executable operation here is proved
//! against the spec function of the same name.
use vstd::prelude::*;

verus! {

/// The Unicode `White_Space` property (the set `char::is_whitespace` tests).
pub open spec fn is_ws(c: char) -> bool {
    let u = c as u32;
    ||| u == 0x09 || u == 0x0A || u == 0x0B || u == 0x0C || u == 0x0D || u == 0x20
    ||| u == 0x85 || u == 0xA0 || u == 0x1680
    ||| (0x2000 <= u && u <= 0x200A)
    ||| u == 0x2028 || u == 0x2029 || u == 0x202F || u == 0x205F || u == 0x3000
}

pub fn is_whitespace(c: char) -> (r: bool)
    ensures
        r == is_ws(c),
{
    let u = c as u32;
    u == 0x09 || u == 0x0A || u == 0x0B || u == 0x0C || u == 0x0D || u == 0x20 || u == 0x85
        || u == 0xA0 || u == 0x1680 || (0x2000 <= u && u <= 0x200A) || u == 0x2028 || u == 0x2029
        || u == 0x202F || u == 0x205F || u == 0x3000
}

/// `char::is_ascii_alphanumeric`.
pub open spec fn is_ascii_alnum(c: char) -> bool {
    ('0' <= c && c <= '9') || ('a' <= c && c <= 'z') || ('A' <= c && c <= 'Z')
}

pub fn is_ascii_alphanumeric(c: char) -> (r: bool)
    ensures
        r == is_ascii_alnum(c),
{
    ('0' <= c && c <= '9') || ('a' <= c && c <= 'z') || ('A' <= c && c <= 'Z')
}

/// The views of a sequence of strings.
pub open spec fn views(v: Seq<String>) -> Seq<Seq<char>> {
    v.map_values(|s: String| s@)
}

pub open spec fn opt_view(o: Option<String>) -> Option<Seq<char>> {
    match o {
        Some(s) => Some(s@),
        None => None,
    }
}

// ---------------------------------------------------------------------------
// Conversions
// ---------------------------------------------------------------------------
pub fn chars_of(s: &str) -> (v: Vec<char>)
    ensures
        v@ == s@,
{
    let mut v: Vec<char> = Vec::new();
    for c in it: s.chars()
        invariant
            v@ == it.seq().take(it.index() as int),
    {
        v.push(c);
    }
    v
}

/// `String::push`.
#[verifier::external_body]
fn push_char(s: &mut String, c: char)
    ensures
        final(s)@ == old(s)@.push(c),
{
    s.push(c);
}

pub fn string_of(cs: &[char]) -> (s: String)
    ensures
        s@ == cs@,
{
    let mut s = String::new();
    let mut i: usize = 0;
    while i < cs.len()
        invariant
            i <= cs.len(),
            s@ == cs@.take(i as int),
        decreases cs.len() - i,
    {
        push_char(&mut s, cs[i]);
        i += 1;
        assert(s@ =~= cs@.take(i as int));
    }
    assert(cs@.take(cs.len() as int) =~= cs@);
    s
}

pub fn copy_str(s: &str) -> (r: String)
    ensures
        r@ == s@,
{
    String::from_str(s)
}

/// Whether two strings hold the same characters.
pub fn str_eq(a: &str, b: &str) -> (r: bool)
    ensures
        r == (a@ == b@),
{
    let ca = chars_of(a);
    let cb = chars_of(b);
    chars_eq(ca.as_slice(), cb.as_slice())
}

pub fn concat(a: &str, b: &str) -> (r: String)
    ensures
        r@ == a@ + b@,
{
    let mut s = String::from_str(a);
    s.append(b);
    s
}

pub fn concat3(a: &str, b: &str, c: &str) -> (r: String)
    ensures
        r@ == a@ + b@ + c@,
{
    let mut s = String::from_str(a);
    s.append(b);
    s.append(c);
    s
}

pub fn concat5(a: &str, b: &str, c: &str, d: &str, e: &str) -> (r: String)
    ensures
        r@ == a@ + b@ + c@ + d@ + e@,
{
    let mut s = String::from_str(a);
    s.append(b);
    s.append(c);
    s.append(d);
    s.append(e);
    s
}

pub fn subvec(cs: &[char], lo: usize, hi: usize) -> (r: Vec<char>)
    requires
        lo <= hi <= cs.len(),
    ensures
        r@ == cs@.subrange(lo as int, hi as int),
{
    let mut r: Vec<char> = Vec::new();
    let mut i = lo;
    while i < hi
        invariant
            lo <= i <= hi <= cs.len(),
            r@ == cs@.subrange(lo as int, i as int),
        decreases hi - i,
    {
        r.push(cs[i]);
        i += 1;
        assert(r@ =~= cs@.subrange(lo as int, i as int));
    }
    r
}

pub fn chars_eq(a: &[char], b: &[char]) -> (r: bool)
    ensures
        r == (a@ == b@),
{
    if a.len() != b.len() {
        return false;
    }
    let mut i: usize = 0;
    while i < a.len()
        invariant
            a.len() == b.len(),
            i <= a.len(),
            forall|k: int| 0 <= k < i ==> a@[k] == b@[k],
        decreases a.len() - i,
    {
        if a[i] != b[i] {
            return false;
        }
        i += 1;
    }
    assert(a@ =~= b@);
    true
}

// ---------------------------------------------------------------------------
// Trimming
// ---------------------------------------------------------------------------
pub open spec fn trim_start(s: Seq<char>) -> Seq<char>
    decreases s.len(),
{
    if s.len() > 0 && is_ws(s[0]) {
        trim_start(s.drop_first())
    } else {
        s
    }
}

pub open spec fn trim_end(s: Seq<char>) -> Seq<char>
    decreases s.len(),
{
    if s.len() > 0 && is_ws(s.last()) {
        trim_end(s.drop_last())
    } else {
        s
    }
}

/// `str::trim`.
pub open spec fn trim(s: Seq<char>) -> Seq<char> {
    trim_end(trim_start(s))
}

proof fn lemma_trim_start_skip(s: Seq<char>, i: int)
    requires
        0 <= i <= s.len(),
        forall|k: int| 0 <= k < i ==> is_ws(s[k]),
        i == s.len() || !is_ws(s[i]),
    ensures
        trim_start(s) == s.skip(i),
    decreases i,
{
    if i == 0 {
        assert(s.skip(0) =~= s);
    } else {
        assert(s.drop_first().skip(i - 1) =~= s.skip(i));
        lemma_trim_start_skip(s.drop_first(), i - 1);
    }
}

proof fn lemma_trim_end_take(s: Seq<char>, j: int)
    requires
        0 <= j <= s.len(),
        forall|k: int| j <= k < s.len() ==> is_ws(s[k]),
        j == 0 || !is_ws(s[j - 1]),
    ensures
        trim_end(s) == s.take(j),
    decreases s.len() - j,
{
    if j == s.len() {
        assert(s.take(j) =~= s);
    } else {
        assert(s.drop_last().take(j) =~= s.take(j));
        lemma_trim_end_take(s.drop_last(), j);
    }
}

pub fn trim_chars(cs: &[char]) -> (r: Vec<char>)
    ensures
        r@ == trim(cs@),
{
    let mut i: usize = 0;
    while i < cs.len() && is_whitespace(cs[i])
        invariant
            i <= cs.len(),
            forall|k: int| 0 <= k < i ==> is_ws(cs@[k]),
        decreases cs.len() - i,
    {
        i += 1;
    }
    let mut j: usize = cs.len();
    while j > i && is_whitespace(cs[j - 1])
        invariant
            i <= j <= cs.len(),
            forall|k: int| j <= k < cs.len() ==> is_ws(cs@[k]),
        decreases j,
    {
        j -= 1;
    }
    proof {
        lemma_trim_start_skip(cs@, i as int);
        let t = cs@.skip(i as int);
        assert forall|k: int| (j - i) <= k < t.len() implies is_ws(t[k]) by {
            assert(t[k] == cs@[k + i]);
        }
        if j > i {
            assert(t[j - i - 1] == cs@[j - 1]);
        }
        lemma_trim_end_take(t, j - i);
        assert(t.take(j - i) =~= cs@.subrange(i as int, j as int));
    }
    subvec(cs, i, j)
}

/// Strip every leading and trailing character that is in `set`
/// (`str::trim_matches` with a character or an array of characters).
pub open spec fn trim_start_set(s: Seq<char>, set: Seq<char>) -> Seq<char>
    decreases s.len(),
{
    if s.len() > 0 && set.contains(s[0]) {
        trim_start_set(s.drop_first(), set)
    } else {
        s
    }
}

pub open spec fn trim_end_set(s: Seq<char>, set: Seq<char>) -> Seq<char>
    decreases s.len(),
{
    if s.len() > 0 && set.contains(s.last()) {
        trim_end_set(s.drop_last(), set)
    } else {
        s
    }
}

pub open spec fn trim_set(s: Seq<char>, set: Seq<char>) -> Seq<char> {
    trim_end_set(trim_start_set(s, set), set)
}

proof fn lemma_trim_start_set_skip(s: Seq<char>, set: Seq<char>, i: int)
    requires
        0 <= i <= s.len(),
        forall|k: int| 0 <= k < i ==> set.contains(s[k]),
        i == s.len() || !set.contains(s[i]),
    ensures
        trim_start_set(s, set) == s.skip(i),
    decreases i,
{
    if i == 0 {
        assert(s.skip(0) =~= s);
    } else {
        assert(s.drop_first().skip(i - 1) =~= s.skip(i));
        lemma_trim_start_set_skip(s.drop_first(), set, i - 1);
    }
}

proof fn lemma_trim_end_set_take(s: Seq<char>, set: Seq<char>, j: int)
    requires
        0 <= j <= s.len(),
        forall|k: int| j <= k < s.len() ==> set.contains(s[k]),
        j == 0 || !set.contains(s[j - 1]),
    ensures
        trim_end_set(s, set) == s.take(j),
    decreases s.len() - j,
{
    if j == s.len() {
        assert(s.take(j) =~= s);
    } else {
        assert(s.drop_last().take(j) =~= s.take(j));
        lemma_trim_end_set_take(s.drop_last(), set, j);
    }
}

pub fn in_set(set: &[char], c: char) -> (r: bool)
    ensures
        r == set@.contains(c),
{
    let mut i: usize = 0;
    while i < set.len()
        invariant
            i <= set.len(),
            forall|k: int| 0 <= k < i ==> set@[k] != c,
        decreases set.len() - i,
    {
        if set[i] == c {
            return true;
        }
        i += 1;
    }
    false
}

pub fn trim_set_chars(cs: &[char], set: &[char]) -> (r: Vec<char>)
    ensures
        r@ == trim_set(cs@, set@),
{
    let mut i: usize = 0;
    while i < cs.len() && in_set(set, cs[i])
        invariant
            i <= cs.len(),
            forall|k: int| 0 <= k < i ==> set@.contains(cs@[k]),
        decreases cs.len() - i,
    {
        i += 1;
    }
    let mut j: usize = cs.len();
    while j > i && in_set(set, cs[j - 1])
        invariant
            i <= j <= cs.len(),
            forall|k: int| j <= k < cs.len() ==> set@.contains(cs@[k]),
        decreases j,
    {
        j -= 1;
    }
    proof {
        lemma_trim_start_set_skip(cs@, set@, i as int);
        let t = cs@.skip(i as int);
        assert forall|k: int| (j - i) <= k < t.len() implies set@.contains(t[k]) by {
            assert(t[k] == cs@[k + i]);
        }
        if j > i {
            assert(t[j - i - 1] == cs@[j - 1]);
        }
        lemma_trim_end_set_take(t, set@, j - i);
        assert(t.take(j - i) =~= cs@.subrange(i as int, j as int));
    }
    subvec(cs, i, j)
}

/// `str::trim_end_matches` with one character.
pub fn trim_end_char(cs: &[char], c: char) -> (r: Vec<char>)
    ensures
        r@ == trim_end_set(cs@, seq![c]),
{
    let mut j: usize = cs.len();
    while j > 0 && cs[j - 1] == c
        invariant
            j <= cs.len(),
            forall|k: int| j <= k < cs.len() ==> seq![c].contains(cs@[k]),
        decreases j,
    {
        assert(seq![c][0] == c);
        j -= 1;
    }
    proof {
        if j > 0 {
            assert(!seq![c].contains(cs@[j - 1])) by {
                if seq![c].contains(cs@[j - 1]) {
                    let k = choose|k: int| 0 <= k < 1 && seq![c][k] == cs@[j - 1];
                }
            }
        }
        lemma_trim_end_set_take(cs@, seq![c], j as int);
    }
    subvec(cs, 0, j)
}

// ---------------------------------------------------------------------------
// Searching
// ---------------------------------------------------------------------------
/// Index of the first occurrence of `c` in `s`.
pub open spec fn find(s: Seq<char>, c: char) -> Option<int>
    decreases s.len(),
{
    if s.len() == 0 {
        None
    } else if s[0] == c {
        Some(0)
    } else {
        match find(s.drop_first(), c) {
            Some(i) => Some(i + 1),
            None => None,
        }
    }
}

/// Index of the last occurrence of `c` in `s`.
pub open spec fn rfind(s: Seq<char>, c: char) -> Option<int>
    decreases s.len(),
{
    if s.len() == 0 {
        None
    } else if s.last() == c {
        Some(s.len() - 1)
    } else {
        rfind(s.drop_last(), c)
    }
}

pub proof fn lemma_find_at(s: Seq<char>, c: char, i: int)
    requires
        0 <= i < s.len(),
        s[i] == c,
        forall|k: int| 0 <= k < i ==> s[k] != c,
    ensures
        find(s, c) == Some(i),
    decreases i,
{
    if i > 0 {
        assert forall|k: int| 0 <= k < i - 1 implies s.drop_first()[k] != c by {
            assert(s.drop_first()[k] == s[k + 1]);
        }
        lemma_find_at(s.drop_first(), c, i - 1);
    }
}

pub proof fn lemma_find_none(s: Seq<char>, c: char)
    requires
        forall|k: int| 0 <= k < s.len() ==> s[k] != c,
    ensures
        find(s, c) is None,
    decreases s.len(),
{
    if s.len() > 0 {
        assert forall|k: int| 0 <= k < s.len() - 1 implies s.drop_first()[k] != c by {
            assert(s.drop_first()[k] == s[k + 1]);
        }
        lemma_find_none(s.drop_first(), c);
    }
}

pub proof fn lemma_find_bounds(s: Seq<char>, c: char)
    ensures
        find(s, c) matches Some(i) ==> 0 <= i < s.len() && s[i] == c && forall|k: int|
            0 <= k < i ==> s[k] != c,
        find(s, c) is None ==> forall|k: int| 0 <= k < s.len() ==> s[k] != c,
    decreases s.len(),
{
    if s.len() > 0 && s[0] != c {
        lemma_find_bounds(s.drop_first(), c);
        assert forall|k: int| 1 <= k < s.len() implies s[k] == s.drop_first()[k - 1] by {}
    }
}

pub proof fn lemma_rfind_at(s: Seq<char>, c: char, i: int)
    requires
        0 <= i < s.len(),
        s[i] == c,
        forall|k: int| i < k < s.len() ==> s[k] != c,
    ensures
        rfind(s, c) == Some(i),
    decreases s.len(),
{
    if i < s.len() - 1 {
        lemma_rfind_at(s.drop_last(), c, i);
    }
}

pub proof fn lemma_rfind_none(s: Seq<char>, c: char)
    requires
        forall|k: int| 0 <= k < s.len() ==> s[k] != c,
    ensures
        rfind(s, c) is None,
    decreases s.len(),
{
    if s.len() > 0 {
        lemma_rfind_none(s.drop_last(), c);
    }
}

pub proof fn lemma_rfind_bounds(s: Seq<char>, c: char)
    ensures
        rfind(s, c) matches Some(i) ==> 0 <= i < s.len() && s[i] == c && forall|k: int|
            i < k < s.len() ==> s[k] != c,
    decreases s.len(),
{
    if s.len() > 0 && s.last() != c {
        lemma_rfind_bounds(s.drop_last(), c);
        assert forall|k: int| 0 <= k < s.len() - 1 implies s[k] == s.drop_last()[k] by {}
    }
}

pub fn find_char(cs: &[char], c: char) -> (r: Option<usize>)
    ensures
        match r {
            Some(i) => find(cs@, c) == Some(i as int) && i < cs.len(),
            None => find(cs@, c) is None,
        },
{
    let mut i: usize = 0;
    while i < cs.len()
        invariant
            i <= cs.len(),
            forall|k: int| 0 <= k < i ==> cs@[k] != c,
        decreases cs.len() - i,
    {
        if cs[i] == c {
            proof {
                lemma_find_at(cs@, c, i as int);
            }
            return Some(i);
        }
        i += 1;
    }
    proof {
        lemma_find_none(cs@, c);
    }
    None
}

pub fn rfind_char(cs: &[char], c: char) -> (r: Option<usize>)
    ensures
        match r {
            Some(i) => rfind(cs@, c) == Some(i as int) && i < cs.len(),
            None => rfind(cs@, c) is None,
        },
{
    let mut j: usize = cs.len();
    while j > 0
        invariant
            j <= cs.len(),
            forall|k: int| j <= k < cs.len() ==> cs@[k] != c,
        decreases j,
    {
        if cs[j - 1] == c {
            proof {
                lemma_rfind_at(cs@, c, j - 1);
            }
            return Some(j - 1);
        }
        j -= 1;
    }
    proof {
        lemma_rfind_none(cs@, c);
    }
    None
}

/// `str::split_once` with a character pattern.
pub open spec fn split_once(s: Seq<char>, c: char) -> Option<(Seq<char>, Seq<char>)> {
    match find(s, c) {
        Some(i) => Some((s.take(i), s.skip(i + 1))),
        None => None,
    }
}

/// `str::rsplit_once` with a character pattern.
pub open spec fn rsplit_once(s: Seq<char>, c: char) -> Option<(Seq<char>, Seq<char>)> {
    match rfind(s, c) {
        Some(i) => Some((s.take(i), s.skip(i + 1))),
        None => None,
    }
}

pub fn split_once_chars(cs: &[char], c: char) -> (r: Option<(Vec<char>, Vec<char>)>)
    ensures
        match r {
            Some((a, b)) => split_once(cs@, c) == Some((a@, b@)),
            None => split_once(cs@, c) is None,
        },
{
    match find_char(cs, c) {
        Some(i) => {
            let a = subvec(cs, 0, i);
            let b = subvec(cs, i + 1, cs.len());
            assert(a@ =~= cs@.take(i as int));
            assert(b@ =~= cs@.skip(i + 1));
            Some((a, b))
        },
        None => None,
    }
}

pub fn rsplit_once_chars(cs: &[char], c: char) -> (r: Option<(Vec<char>, Vec<char>)>)
    ensures
        match r {
            Some((a, b)) => rsplit_once(cs@, c) == Some((a@, b@)),
            None => rsplit_once(cs@, c) is None,
        },
{
    match rfind_char(cs, c) {
        Some(i) => {
            let a = subvec(cs, 0, i);
            let b = subvec(cs, i + 1, cs.len());
            assert(a@ =~= cs@.take(i as int));
            assert(b@ =~= cs@.skip(i + 1));
            Some((a, b))
        },
        None => None,
    }
}

/// `str::starts_with` with a string pattern.
pub open spec fn starts_with(s: Seq<char>, p: Seq<char>) -> bool {
    p.len() <= s.len() && s.take(p.len() as int) == p
}

/// `str::ends_with` with a string pattern.
pub open spec fn ends_with(s: Seq<char>, p: Seq<char>) -> bool {
    p.len() <= s.len() && s.skip(s.len() - p.len()) == p
}

/// `str::contains` with a string pattern.
pub open spec fn contains_at(s: Seq<char>, p: Seq<char>, i: int) -> bool {
    0 <= i && i + p.len() <= s.len() && s.subrange(i, i + p.len()) == p
}

pub open spec fn contains(s: Seq<char>, p: Seq<char>) -> bool {
    exists|i: int| contains_at(s, p, i)
}

fn matches_at(cs: &[char], p: &[char], i: usize) -> (r: bool)
    requires
        i + p.len() <= cs.len(),
    ensures
        r == (cs@.subrange(i as int, i + p.len()) == p@),
{
    let mut k: usize = 0;
    while k < p.len()
        invariant
            i + p.len() <= cs.len(),
            k <= p.len(),
            forall|m: int| 0 <= m < k ==> cs@[i + m] == p@[m],
        decreases p.len() - k,
    {
        if cs[i + k] != p[k] {
            assert(cs@.subrange(i as int, i + p.len())[k as int] != p@[k as int]);
            return false;
        }
        k += 1;
    }
    assert(cs@.subrange(i as int, i + p.len()) =~= p@);
    true
}

pub fn starts_with_chars(cs: &[char], p: &[char]) -> (r: bool)
    ensures
        r == starts_with(cs@, p@),
{
    if p.len() > cs.len() {
        return false;
    }
    let r = matches_at(cs, p, 0);
    assert(cs@.subrange(0, p.len() as int) =~= cs@.take(p.len() as int));
    r
}

pub fn ends_with_chars(cs: &[char], p: &[char]) -> (r: bool)
    ensures
        r == ends_with(cs@, p@),
{
    if p.len() > cs.len() {
        return false;
    }
    let i = cs.len() - p.len();
    let r = matches_at(cs, p, i);
    assert(cs@.subrange(i as int, cs.len() as int) =~= cs@.skip(i as int));
    r
}

pub fn contains_chars(cs: &[char], p: &[char]) -> (r: bool)
    ensures
        r == contains(cs@, p@),
{
    if p.len() > cs.len() {
        return false;
    }
    let n = cs.len() - p.len();
    let mut i: usize = 0;
    loop
        invariant
            p.len() <= cs.len(),
            n == cs.len() - p.len(),
            i <= n,
            forall|k: int| 0 <= k < i ==> !contains_at(cs@, p@, k),
        decreases n - i,
    {
        if matches_at(cs, p, i) {
            assert(contains_at(cs@, p@, i as int));
            return true;
        }
        if i == n {
            assert forall|k: int| !contains_at(cs@, p@, k) by {
                if 0 <= k <= i {
                }
            }
            return false;
        }
        i += 1;
    }
}

pub fn starts_with_str(s: &str, p: &str) -> (r: bool)
    ensures
        r == starts_with(s@, p@),
{
    let a = chars_of(s);
    let b = chars_of(p);
    starts_with_chars(a.as_slice(), b.as_slice())
}

pub fn ends_with_str(s: &str, p: &str) -> (r: bool)
    ensures
        r == ends_with(s@, p@),
{
    let a = chars_of(s);
    let b = chars_of(p);
    ends_with_chars(a.as_slice(), b.as_slice())
}

pub fn contains_str(s: &str, p: &str) -> (r: bool)
    ensures
        r == contains(s@, p@),
{
    let a = chars_of(s);
    let b = chars_of(p);
    contains_chars(a.as_slice(), b.as_slice())
}

pub fn has_char(cs: &[char], c: char) -> (r: bool)
    ensures
        r == cs@.contains(c),
{
    in_set(cs, c)
}

// ---------------------------------------------------------------------------
// Lines
// ---------------------------------------------------------------------------
/// Drop one trailing `'\r'`, if present.
pub open spec fn strip_cr(s: Seq<char>) -> Seq<char> {
    if s.len() > 0 && s.last() == '\r' {
        s.drop_last()
    } else {
        s
    }
}



/// `str::lines`: split at `'\n'`, dropping a `'\r'` that precedes it; a
/// final line ending yields no empty last line.
pub open spec fn lines(s: Seq<char>) -> Seq<Seq<char>>
    decreases s.len(),
{
    if s.len() == 0 {
        seq![]
    } else {
        match find(s, '\n') {
            Some(i) => {
                proof {
                    lemma_find_bounds(s, '\n');
                }
                seq![strip_cr(s.take(i))] + lines(s.skip(i + 1))
            },
            None => seq![s],
        }
    }
}

/// The first line of `cs[start..]` and where the next one begins.
fn next_line(cs: &[char], start: usize) -> (r: (Vec<char>, usize))
    requires
        start < cs.len(),
    ensures
        start < r.1 <= cs.len(),
        lines(cs@.skip(start as int)) == seq![r.0@] + lines(cs@.skip(r.1 as int)),
{
    let ghost rest = cs@.skip(start as int);
    let mut j = start;
    while j < cs.len() && cs[j] != '\n'
        invariant
            start <= j <= cs.len(),
            forall|k: int| start <= k < j ==> cs@[k] != '\n',
        decreases cs.len() - j,
    {
        j += 1;
    }
    if j < cs.len() {
        let mut end = j;
        if end > start && cs[end - 1] == '\r' {
            end = end - 1;
        }
        let line = subvec(cs, start, end);
        proof {
            assert forall|k: int| 0 <= k < j - start implies rest[k] != '\n' by {
                assert(rest[k] == cs@[start + k]);
            }
            assert(rest[j - start] == cs@[j as int]);
            lemma_find_at(rest, '\n', j - start);
            assert(rest.take(j - start) =~= cs@.subrange(start as int, j as int));
            assert(rest.skip(j - start + 1) =~= cs@.skip(j + 1));
            assert(line@ =~= strip_cr(rest.take(j - start)));
        }
        (line, j + 1)
    } else {
        let line = subvec(cs, start, cs.len());
        proof {
            assert forall|k: int| 0 <= k < rest.len() implies rest[k] != '\n' by {
                assert(rest[k] == cs@[start + k]);
            }
            lemma_find_none(rest, '\n');
            assert(line@ =~= rest);
            assert(cs@.skip(cs.len() as int) =~= Seq::<char>::empty());
            assert(lines(cs@.skip(cs.len() as int)) =~= Seq::<Seq<char>>::empty());
            assert(seq![line@] + lines(cs@.skip(cs.len() as int)) =~= seq![line@]);
        }
        (line, cs.len())
    }
}

pub fn lines_of(s: &str) -> (r: Vec<Vec<char>>)
    ensures
        r@.map_values(|l: Vec<char>| l@) == lines(s@),
{
    let cs = chars_of(s);
    let mut out: Vec<Vec<char>> = Vec::new();
    let mut start: usize = 0;
    assert(cs@.skip(0) =~= cs@);
    assert(out@.map_values(|l: Vec<char>| l@) + lines(cs@.skip(0)) =~= lines(cs@));
    while start < cs.len()
        invariant
            start <= cs.len(),
            lines(cs@) == out@.map_values(|l: Vec<char>| l@) + lines(cs@.skip(start as int)),
        decreases cs.len() - start,
    {
        let (line, next) = next_line(cs.as_slice(), start);
        let ghost before = out@.map_values(|l: Vec<char>| l@);
        out.push(line);
        proof {
            assert(out@.map_values(|l: Vec<char>| l@) =~= before.push(line@));
            assert(before + (seq![line@] + lines(cs@.skip(next as int))) =~= before.push(line@)
                + lines(cs@.skip(next as int)));
        }
        start = next;
    }
    proof {
        assert(cs@.skip(start as int) =~= Seq::<char>::empty());
        assert(lines(cs@.skip(start as int)) =~= Seq::<Seq<char>>::empty());
        assert(lines(cs@) =~= out@.map_values(|l: Vec<char>| l@));
    }
    out
}

// ---------------------------------------------------------------------------
// Splitting and joining
// ---------------------------------------------------------------------------
/// The text before the first character of `set` (`split(set).next()`).
pub open spec fn before_any(s: Seq<char>, set: Seq<char>) -> Seq<char>
    decreases s.len(),
{
    if s.len() == 0 || set.contains(s[0]) {
        seq![]
    } else {
        seq![s[0]] + before_any(s.drop_first(), set)
    }
}

proof fn lemma_before_any_take(s: Seq<char>, set: Seq<char>, i: int)
    requires
        0 <= i <= s.len(),
        forall|k: int| 0 <= k < i ==> !set.contains(s[k]),
        i == s.len() || set.contains(s[i]),
    ensures
        before_any(s, set) == s.take(i),
    decreases i,
{
    if i == 0 {
        assert(s.take(0) =~= Seq::<char>::empty());
    } else {
        lemma_before_any_take(s.drop_first(), set, i - 1);
        assert(seq![s[0]] + s.drop_first().take(i - 1) =~= s.take(i));
    }
}

pub proof fn lemma_before_any_len(s: Seq<char>, set: Seq<char>)
    ensures
        before_any(s, set).len() <= s.len(),
    decreases s.len(),
{
    if s.len() > 0 && !set.contains(s[0]) {
        lemma_before_any_len(s.drop_first(), set);
    }
}

proof fn lemma_trim_start_len(s: Seq<char>)
    ensures
        trim_start(s).len() <= s.len(),
    decreases s.len(),
{
    if s.len() > 0 && is_ws(s[0]) {
        lemma_trim_start_len(s.drop_first());
    }
}

proof fn lemma_trim_end_len(s: Seq<char>)
    ensures
        trim_end(s).len() <= s.len(),
    decreases s.len(),
{
    if s.len() > 0 && is_ws(s.last()) {
        lemma_trim_end_len(s.drop_last());
    }
}

pub proof fn lemma_trim_len(s: Seq<char>)
    ensures
        trim(s).len() <= s.len(),
{
    lemma_trim_start_len(s);
    lemma_trim_end_len(trim_start(s));
}

pub fn before_any_chars(cs: &[char], set: &[char]) -> (r: Vec<char>)
    ensures
        r@ == before_any(cs@, set@),
{
    let mut i: usize = 0;
    while i < cs.len() && !in_set(set, cs[i])
        invariant
            i <= cs.len(),
            forall|k: int| 0 <= k < i ==> !set@.contains(cs@[k]),
        decreases cs.len() - i,
    {
        i += 1;
    }
    proof {
        lemma_before_any_take(cs@, set@, i as int);
    }
    subvec(cs, 0, i)
}

/// `str::split` on one character: every piece, empty pieces included.
pub open spec fn split_char(s: Seq<char>, c: char) -> Seq<Seq<char>>
    decreases s.len(),
{
    match find(s, c) {
        Some(i) => {
            proof {
                lemma_find_bounds(s, c);
            }
            seq![s.take(i)] + split_char(s.skip(i + 1), c)
        },
        None => seq![s],
    }
}

/// The first piece of `cs[start..]` and, when a separator follows it, where
/// the next piece begins.
fn next_piece(cs: &[char], start: usize, c: char) -> (r: (Vec<char>, Option<usize>))
    requires
        start <= cs.len(),
    ensures
        match r.1 {
            Some(n) => start < n <= cs.len() && split_char(cs@.skip(start as int), c) == seq![r.0@]
                + split_char(cs@.skip(n as int), c),
            None => split_char(cs@.skip(start as int), c) == seq![r.0@],
        },
{
    let ghost rest = cs@.skip(start as int);
    let mut j = start;
    while j < cs.len() && cs[j] != c
        invariant
            start <= j <= cs.len(),
            forall|k: int| start <= k < j ==> cs@[k] != c,
        decreases cs.len() - j,
    {
        j += 1;
    }
    let piece = subvec(cs, start, j);
    if j < cs.len() {
        proof {
            assert forall|k: int| 0 <= k < j - start implies rest[k] != c by {
                assert(rest[k] == cs@[start + k]);
            }
            assert(rest[j - start] == cs@[j as int]);
            lemma_find_at(rest, c, j - start);
            assert(rest.take(j - start) =~= piece@);
            assert(rest.skip(j - start + 1) =~= cs@.skip(j + 1));
        }
        (piece, Some(j + 1))
    } else {
        proof {
            assert forall|k: int| 0 <= k < rest.len() implies rest[k] != c by {
                assert(rest[k] == cs@[start + k]);
            }
            lemma_find_none(rest, c);
            assert(piece@ =~= rest);
        }
        (piece, None)
    }
}

pub fn split_char_chars(cs: &[char], c: char) -> (r: Vec<Vec<char>>)
    ensures
        r@.map_values(|l: Vec<char>| l@) == split_char(cs@, c),
{
    let mut out: Vec<Vec<char>> = Vec::new();
    let mut start: usize = 0;
    assert(cs@.skip(0) =~= cs@);
    assert(out@.map_values(|l: Vec<char>| l@) + split_char(cs@.skip(0), c) =~= split_char(cs@, c));
    loop
        invariant
            start <= cs.len(),
            split_char(cs@, c) == out@.map_values(|l: Vec<char>| l@) + split_char(
                cs@.skip(start as int),
                c,
            ),
        decreases cs.len() - start,
    {
        let (piece, next) = next_piece(cs, start, c);
        let ghost before = out@.map_values(|l: Vec<char>| l@);
        out.push(piece);
        assert(out@.map_values(|l: Vec<char>| l@) =~= before.push(piece@));
        match next {
            Some(n) => {
                assert(before + (seq![piece@] + split_char(cs@.skip(n as int), c)) =~= before.push(
                    piece@,
                ) + split_char(cs@.skip(n as int), c));
                start = n;
            },
            None => {
                assert(before + seq![piece@] =~= before.push(piece@));
                return out;
            },
        }
    }
}

/// `slice.join(sep)` for strings.
pub open spec fn join(parts: Seq<Seq<char>>, sep: Seq<char>) -> Seq<char>
    decreases parts.len(),
{
    if parts.len() == 0 {
        seq![]
    } else if parts.len() == 1 {
        parts[0]
    } else {
        join(parts.drop_last(), sep) + sep + parts.last()
    }
}

/// The pieces one after another.
pub open spec fn concat_all(pieces: Seq<Seq<char>>) -> Seq<char>
    decreases pieces.len(),
{
    if pieces.len() == 0 {
        seq![]
    } else {
        concat_all(pieces.drop_last()) + pieces.last()
    }
}

/// Joining a head and more parts gives the head, then each part after a
/// separator.
pub proof fn lemma_join_head(head: Seq<char>, rest: Seq<Seq<char>>, sep: Seq<char>)
    ensures
        join(seq![head] + rest, sep) == head + concat_all(rest.map_values(|x: Seq<char>| sep + x)),
    decreases rest.len(),
{
    let f = |x: Seq<char>| sep + x;
    if rest.len() == 0 {
        assert(seq![head] + rest =~= seq![head]);
        assert(head + concat_all(rest.map_values(f)) =~= head);
    } else {
        let t = rest.drop_last();
        lemma_join_head(head, t, sep);
        assert((seq![head] + rest).drop_last() =~= seq![head] + t);
        assert(rest.map_values(f).drop_last() =~= t.map_values(f));
        assert(rest.map_values(f).last() == sep + rest.last());
        assert(head + concat_all(t.map_values(f)) + sep + rest.last() =~= head + (concat_all(t.map_values(f)) + (sep
            + rest.last())));
    }
}

/// A join of two or more parts starts with the first part and a separator.
pub proof fn lemma_join_starts(parts: Seq<Seq<char>>, sep: Seq<char>)
    requires
        parts.len() >= 2,
    ensures
        starts_with(join(parts, sep), parts[0] + sep),
    decreases parts.len(),
{
    let t = parts.drop_last();
    assert(join(parts, sep) == join(t, sep) + sep + parts.last());
    assert(t[0] == parts[0]);
    if parts.len() == 2 {
        assert(join(t, sep) == parts[0]);
        assert((parts[0] + sep + parts.last()).take((parts[0] + sep).len() as int) =~= parts[0] + sep);
    } else {
        lemma_join_starts(t, sep);
        let j = join(t, sep);
        let p = parts[0] + sep;
        assert(j.take(p.len() as int) == p);
        assert((j + sep + parts.last()).take(p.len() as int) =~= j.take(p.len() as int));
    }
}

pub fn join_strings(parts: &[String], sep: &str) -> (r: String)
    ensures
        r@ == join(views(parts@), sep@),
{
    let mut r = String::new();
    let mut i: usize = 0;
    while i < parts.len()
        invariant
            i <= parts.len(),
            r@ == join(views(parts@).take(i as int), sep@),
        decreases parts.len() - i,
    {
        let ghost pre = views(parts@).take(i as int);
        if i > 0 {
            r.append(sep);
        }
        r.append(parts[i].as_str());
        proof {
            let next = views(parts@).take(i + 1);
            assert(next.drop_last() =~= pre);
            assert(next.last() == parts@[i as int]@);
            if i == 0 {
                assert(next.len() == 1);
            }
        }
        i += 1;
    }
    assert(views(parts@).take(parts.len() as int) =~= views(parts@));
    r
}

/// `str::to_uppercase`: what the full Unicode case mapping gives.
pub uninterp spec fn unicode_uppercase(s: Seq<char>) -> Seq<char>;

/// ASCII upper-casing of one character.
pub open spec fn ascii_upper(c: char) -> char {
    if 'a' <= c && c <= 'z' {
        ((c as u32) - 32) as char
    } else {
        c
    }
}

pub open spec fn all_ascii(s: Seq<char>) -> bool {
    forall|i: int| 0 <= i < s.len() ==> (s[i] as u32) < 128
}

/// Calls `str::to_uppercase`. Its result is named by `unicode_uppercase`;
/// the contract also states the documented ASCII case: each ASCII letter maps
/// to its capital and every other ASCII character stays as it is.
#[verifier::external_body]
pub(crate) fn to_uppercase(s: &str) -> (r: String)
    ensures
        r@ == unicode_uppercase(s@),
        all_ascii(s@) ==> r@ == s@.map_values(|c: char| ascii_upper(c)),
{
    s.to_uppercase()
}


// ---------------------------------------------------------------------------
// Numbers
// ---------------------------------------------------------------------------
pub open spec fn digit_char(d: nat) -> char {
    if d == 0 {
        '0'
    } else if d == 1 {
        '1'
    } else if d == 2 {
        '2'
    } else if d == 3 {
        '3'
    } else if d == 4 {
        '4'
    } else if d == 5 {
        '5'
    } else if d == 6 {
        '6'
    } else if d == 7 {
        '7'
    } else if d == 8 {
        '8'
    } else {
        '9'
    }
}

/// The decimal digits of `n`.
pub open spec fn decimal(n: nat) -> Seq<char>
    decreases n,
{
    if n < 10 {
        seq![digit_char(n)]
    } else {
        decimal(n / 10).push(digit_char(n % 10))
    }
}

fn digit(d: u128) -> (c: char)
    requires
        d < 10,
    ensures
        c == digit_char(d as nat),
{
    if d == 0 {
        '0'
    } else if d == 1 {
        '1'
    } else if d == 2 {
        '2'
    } else if d == 3 {
        '3'
    } else if d == 4 {
        '4'
    } else if d == 5 {
        '5'
    } else if d == 6 {
        '6'
    } else if d == 7 {
        '7'
    } else if d == 8 {
        '8'
    } else {
        '9'
    }
}

/// `n.to_string()`.
pub fn decimal_string(n: u128) -> (s: String)
    ensures
        s@ == decimal(n as nat),
    decreases n,
{
    if n < 10 {
        let mut s = String::new();
        push_char(&mut s, digit(n));
        assert(s@ =~= seq![digit_char(n as nat)]);
        s
    } else {
        let mut s = decimal_string(n / 10);
        push_char(&mut s, digit(n % 10));
        s
    }
}

} // verus!
