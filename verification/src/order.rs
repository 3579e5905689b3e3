//! Orderings: the lexicographic order of strings, stable insertion sorting,
//! removal of adjacent duplicates, and sorted sets of strings.
use vstd::prelude::*;

use crate::text::{chars_of, views};

verus! {

/// The order of `String`s: lexicographic by character code (the order of
/// their UTF-8 bytes).
pub open spec fn lex_lt(a: Seq<char>, b: Seq<char>) -> bool
    decreases a.len(),
{
    if a.len() == 0 {
        b.len() > 0
    } else if b.len() == 0 {
        false
    } else if a[0] != b[0] {
        a[0] < b[0]
    } else {
        lex_lt(a.drop_first(), b.drop_first())
    }
}

pub proof fn lemma_lex_irreflexive(a: Seq<char>)
    ensures
        !lex_lt(a, a),
    decreases a.len(),
{
    if a.len() > 0 {
        lemma_lex_irreflexive(a.drop_first());
    }
}

pub proof fn lemma_lex_total(a: Seq<char>, b: Seq<char>)
    ensures
        a == b || lex_lt(a, b) || lex_lt(b, a),
        !(lex_lt(a, b) && lex_lt(b, a)),
    decreases a.len(),
{
    if a.len() > 0 && b.len() > 0 {
        if a[0] == b[0] {
            lemma_lex_total(a.drop_first(), b.drop_first());
            if a.drop_first() == b.drop_first() {
                assert(a =~= seq![a[0]] + a.drop_first());
                assert(b =~= seq![b[0]] + b.drop_first());
            }
        }
    } else if a.len() == 0 && b.len() == 0 {
        assert(a =~= b);
    }
}

pub proof fn lemma_lex_transitive(a: Seq<char>, b: Seq<char>, c: Seq<char>)
    requires
        lex_lt(a, b),
        lex_lt(b, c),
    ensures
        lex_lt(a, c),
    decreases a.len(),
{
    if a.len() > 0 && b.len() > 0 && c.len() > 0 {
        if a[0] == b[0] && b[0] == c[0] {
            lemma_lex_transitive(a.drop_first(), b.drop_first(), c.drop_first());
        }
    }
}

proof fn lemma_lex_skip(a: Seq<char>, b: Seq<char>, i: int)
    requires
        0 <= i <= a.len(),
        i <= b.len(),
        a.take(i) == b.take(i),
    ensures
        lex_lt(a, b) == lex_lt(a.skip(i), b.skip(i)),
    decreases i,
{
    if i > 0 {
        assert(a[0] == a.take(i)[0]);
        assert(b[0] == b.take(i)[0]);
        assert(a.drop_first().take(i - 1) =~= a.take(i).drop_first());
        assert(b.drop_first().take(i - 1) =~= b.take(i).drop_first());
        lemma_lex_skip(a.drop_first(), b.drop_first(), i - 1);
        assert(a.drop_first().skip(i - 1) =~= a.skip(i));
        assert(b.drop_first().skip(i - 1) =~= b.skip(i));
    } else {
        assert(a.skip(0) =~= a);
        assert(b.skip(0) =~= b);
    }
}

pub fn chars_lt(a: &[char], b: &[char]) -> (r: bool)
    ensures
        r == lex_lt(a@, b@),
{
    let mut i: usize = 0;
    while i < a.len() && i < b.len() && a[i] == b[i]
        invariant
            i <= a.len(),
            i <= b.len(),
            a@.take(i as int) == b@.take(i as int),
        decreases a.len() - i,
    {
        assert(a@.take(i + 1) =~= a@.take(i as int).push(a@[i as int]));
        assert(b@.take(i + 1) =~= b@.take(i as int).push(b@[i as int]));
        i += 1;
    }
    proof {
        lemma_lex_skip(a@, b@, i as int);
    }
    if i == a.len() {
        i < b.len()
    } else if i == b.len() {
        false
    } else {
        a[i] < b[i]
    }
}

pub fn str_lt(a: &str, b: &str) -> (r: bool)
    ensures
        r == lex_lt(a@, b@),
{
    let x = chars_of(a);
    let y = chars_of(b);
    chars_lt(x.as_slice(), y.as_slice())
}

// ---------------------------------------------------------------------------
// Stable insertion sort
// ---------------------------------------------------------------------------
/// Insert `x` after every element it is not strictly before.
pub open spec fn insert_by<T>(s: Seq<T>, x: T, lt: spec_fn(T, T) -> bool) -> Seq<T>
    decreases s.len(),
{
    if s.len() > 0 && lt(x, s.last()) {
        insert_by(s.drop_last(), x, lt).push(s.last())
    } else {
        s.push(x)
    }
}

/// The stable sort of `s` by the strict order `lt` (equal elements keep
/// their order).
pub open spec fn sort_by<T>(s: Seq<T>, lt: spec_fn(T, T) -> bool) -> Seq<T>
    decreases s.len(),
{
    if s.len() == 0 {
        seq![]
    } else {
        insert_by(sort_by(s.drop_last(), lt), s.last(), lt)
    }
}

proof fn lemma_insert_at<T>(s: Seq<T>, x: T, lt: spec_fn(T, T) -> bool, j: int)
    requires
        0 <= j <= s.len(),
        forall|k: int| j <= k < s.len() ==> lt(x, #[trigger] s[k]),
        j == 0 || !lt(x, s[j - 1]),
    ensures
        insert_by(s, x, lt) == s.take(j).push(x) + s.skip(j),
    decreases s.len() - j,
{
    if j == s.len() {
        assert(s.take(j) =~= s);
        assert(s.skip(j) =~= Seq::<T>::empty());
        assert(s.push(x) + Seq::<T>::empty() =~= s.push(x));
    } else {
        let t = s.drop_last();
        assert forall|k: int| j <= k < t.len() implies lt(x, #[trigger] t[k]) by {
            assert(t[k] == s[k]);
        }
        if j > 0 {
            assert(t[j - 1] == s[j - 1]);
        }
        lemma_insert_at(t, x, lt, j);
        assert(lt(x, s.last()));
        assert(t.take(j) =~= s.take(j));
        assert((t.take(j).push(x) + t.skip(j)).push(s.last()) =~= s.take(j).push(x) + s.skip(j));
    }
}

proof fn lemma_insert_by_map<A, B>(s: Seq<A>, x: A, f: spec_fn(A) -> B, lta: spec_fn(A, A) -> bool, ltb: spec_fn(B, B) -> bool)
    requires
        forall|p: A, q: A| #[trigger] lta(p, q) == ltb(f(p), f(q)),
    ensures
        insert_by(s, x, lta).map_values(f) == insert_by(s.map_values(f), f(x), ltb),
    decreases s.len(),
{
    let t = s.map_values(f);
    if s.len() > 0 && lta(x, s.last()) {
        lemma_insert_by_map(s.drop_last(), x, f, lta, ltb);
        assert(t.drop_last() =~= s.drop_last().map_values(f));
        assert(t.last() == f(s.last()));
        assert(insert_by(s.drop_last(), x, lta).push(s.last()).map_values(f) =~= insert_by(
            s.drop_last(),
            x,
            lta,
        ).map_values(f).push(f(s.last())));
    } else {
        if s.len() > 0 {
            assert(t.last() == f(s.last()));
        }
        assert(s.push(x).map_values(f) =~= t.push(f(x)));
    }
}

/// Sorting commutes with a map that the two orders agree through.
pub proof fn lemma_sort_by_map<A, B>(s: Seq<A>, f: spec_fn(A) -> B, lta: spec_fn(A, A) -> bool, ltb: spec_fn(B, B) -> bool)
    requires
        forall|p: A, q: A| #[trigger] lta(p, q) == ltb(f(p), f(q)),
    ensures
        sort_by(s, lta).map_values(f) == sort_by(s.map_values(f), ltb),
    decreases s.len(),
{
    if s.len() > 0 {
        lemma_sort_by_map(s.drop_last(), f, lta, ltb);
        assert(s.map_values(f).drop_last() =~= s.drop_last().map_values(f));
        lemma_insert_by_map(sort_by(s.drop_last(), lta), s.last(), f, lta, ltb);
    } else {
        assert(sort_by(s, lta).map_values(f) =~= Seq::<B>::empty());
    }
}

proof fn lemma_insert_by_multiset<T>(s: Seq<T>, x: T, lt: spec_fn(T, T) -> bool)
    ensures
        insert_by(s, x, lt).to_multiset() =~= s.to_multiset().insert(x),
    decreases s.len(),
{
    broadcast use vstd::seq_lib::group_to_multiset_ensures;

    if s.len() > 0 && lt(x, s.last()) {
        let t = s.drop_last();
        lemma_insert_by_multiset(t, x, lt);
        assert(s =~= t.push(s.last()));
        assert(insert_by(t, x, lt).push(s.last()).to_multiset() =~= insert_by(t, x, lt).to_multiset().insert(s.last()));
        assert(s.to_multiset() =~= t.to_multiset().insert(s.last()));
    }
}

/// Sorting rearranges: the sorted sequence holds each element as often as
/// the input does.
pub proof fn lemma_sort_by_permutes<T>(s: Seq<T>, lt: spec_fn(T, T) -> bool)
    ensures
        sort_by(s, lt).to_multiset() =~= s.to_multiset(),
        forall|x: T| #[trigger] sort_by(s, lt).contains(x) <==> s.contains(x),
    decreases s.len(),
{
    broadcast use vstd::seq_lib::group_to_multiset_ensures;

    if s.len() > 0 {
        let t = s.drop_last();
        lemma_sort_by_permutes(t, lt);
        lemma_insert_by_multiset(sort_by(t, lt), s.last(), lt);
        assert(s =~= t.push(s.last()));
        assert(s.to_multiset() =~= t.to_multiset().insert(s.last()));
    } else {
        assert(sort_by(s, lt).to_multiset() =~= s.to_multiset());
    }
    assert forall|x: T| #[trigger] sort_by(s, lt).contains(x) <==> s.contains(x) by {
        assert(sort_by(s, lt).to_multiset().count(x) == s.to_multiset().count(x));
    }
}

// ---------------------------------------------------------------------------
// Sortedness
// ---------------------------------------------------------------------------
/// No element comes after one it is strictly before.
pub open spec fn is_sorted_by<T>(s: Seq<T>, lt: spec_fn(T, T) -> bool) -> bool {
    forall|i: int, j: int| 0 <= i < j < s.len() ==> !lt(#[trigger] s[j], #[trigger] s[i])
}

/// Each element is strictly before every later one.
pub open spec fn is_increasing_by<T>(s: Seq<T>, lt: spec_fn(T, T) -> bool) -> bool {
    forall|i: int, j: int| 0 <= i < j < s.len() ==> lt(#[trigger] s[i], #[trigger] s[j])
}

/// `lt` is a strict weak order: irreflexive, transitive, and such that
/// incomparability is transitive too.
pub open spec fn strict_weak<T>(lt: spec_fn(T, T) -> bool) -> bool {
    &&& forall|a: T| !#[trigger] lt(a, a)
    &&& forall|a: T, b: T, c: T| #![trigger lt(a, b), lt(b, c)] lt(a, b) && lt(b, c) ==> lt(a, c)
    &&& forall|a: T, b: T, c: T| #![trigger lt(a, c), lt(a, b)] #![trigger lt(a, c), lt(b, c)] lt(a, c) ==> lt(a, b) || lt(b, c)
}

proof fn lemma_insert_by_elems<T>(s: Seq<T>, x: T, lt: spec_fn(T, T) -> bool)
    ensures
        insert_by(s, x, lt).len() == s.len() + 1,
        forall|k: int| 0 <= k < s.len() + 1 ==> #[trigger] insert_by(s, x, lt)[k] == x || exists|m: int|
            0 <= m < s.len() && insert_by(s, x, lt)[k] == s[m],
    decreases s.len(),
{
    if s.len() > 0 && lt(x, s.last()) {
        let t = s.drop_last();
        lemma_insert_by_elems(t, x, lt);
        let r = insert_by(s, x, lt);
        assert forall|k: int| 0 <= k < s.len() + 1 implies #[trigger] r[k] == x || exists|m: int|
            0 <= m < s.len() && r[k] == s[m] by {
            if k == s.len() {
                assert(r[k] == s[s.len() - 1]);
            } else {
                assert(r[k] == insert_by(t, x, lt)[k]);
                if insert_by(t, x, lt)[k] != x {
                    let m = choose|m: int| 0 <= m < t.len() && insert_by(t, x, lt)[k] == t[m];
                    assert(r[k] == s[m]);
                }
            }
        }
    } else {
        let r = insert_by(s, x, lt);
        assert forall|k: int| 0 <= k < s.len() + 1 implies #[trigger] r[k] == x || exists|m: int|
            0 <= m < s.len() && r[k] == s[m] by {
            if k < s.len() {
                assert(r[k] == s[k]);
            }
        }
    }
}

proof fn lemma_insert_by_sorted<T>(s: Seq<T>, x: T, lt: spec_fn(T, T) -> bool)
    requires
        strict_weak(lt),
        is_sorted_by(s, lt),
    ensures
        is_sorted_by(insert_by(s, x, lt), lt),
    decreases s.len(),
{
    let r = insert_by(s, x, lt);
    if s.len() > 0 && lt(x, s.last()) {
        let t = s.drop_last();
        assert(is_sorted_by(t, lt));
        lemma_insert_by_sorted(t, x, lt);
        lemma_insert_by_elems(t, x, lt);
        let it = insert_by(t, x, lt);
        assert forall|i: int, j: int| 0 <= i < j < r.len() implies !lt(#[trigger] r[j], #[trigger] r[i]) by {
            if j < r.len() - 1 {
                assert(r[i] == it[i] && r[j] == it[j]);
            } else {
                assert(r[j] == s.last());
                assert(r[i] == it[i]);
                if it[i] == x {
                    if lt(s.last(), x) {
                        assert(lt(x, s.last()) && lt(s.last(), x) ==> lt(x, x));
                    }
                } else {
                    let m = choose|m: int| 0 <= m < t.len() && it[i] == t[m];
                    assert(t[m] == s[m]);
                    assert(!lt(s[s.len() - 1], s[m]));
                }
            }
        }
    } else {
        assert forall|i: int, j: int| 0 <= i < j < r.len() implies !lt(#[trigger] r[j], #[trigger] r[i]) by {
            if j < s.len() {
                assert(r[i] == s[i] && r[j] == s[j]);
            } else {
                assert(r[j] == x && r[i] == s[i]);
                if lt(x, s[i]) {
                    assert(lt(x, s[i]) ==> lt(x, s.last()) || lt(s.last(), s[i]));
                    if i < s.len() - 1 {
                        assert(!lt(s[s.len() - 1], s[i]));
                    }
                }
            }
        }
    }
}

/// A stable sort by a strict weak order is sorted.
pub proof fn lemma_sort_by_sorted<T>(s: Seq<T>, lt: spec_fn(T, T) -> bool)
    requires
        strict_weak(lt),
    ensures
        is_sorted_by(sort_by(s, lt), lt),
        sort_by(s, lt).len() == s.len(),
    decreases s.len(),
{
    if s.len() > 0 {
        lemma_sort_by_sorted(s.drop_last(), lt);
        lemma_insert_by_sorted(sort_by(s.drop_last(), lt), s.last(), lt);
        lemma_insert_by_elems(sort_by(s.drop_last(), lt), s.last(), lt);
    }
}

proof fn lemma_dedup_by_elems<T>(s: Seq<T>, same: spec_fn(T, T) -> bool)
    ensures
        dedup_by(s, same).len() <= s.len(),
        forall|k: int| 0 <= k < dedup_by(s, same).len() ==> exists|m: int|
            0 <= m < s.len() && #[trigger] dedup_by(s, same)[k] == s[m],
    decreases s.len(),
{
    if s.len() > 0 {
        let t = s.drop_last();
        lemma_dedup_by_elems(t, same);
        let d = dedup_by(t, same);
        let r = dedup_by(s, same);
        assert forall|k: int| 0 <= k < r.len() implies exists|m: int| 0 <= m < s.len() && #[trigger] r[k] == s[m] by {
            if k < d.len() {
                assert(r[k] == d[k]);
                let m = choose|m: int| 0 <= m < t.len() && d[k] == t[m];
                assert(t[m] == s[m]);
            } else {
                assert(r[k] == s[s.len() - 1]);
            }
        }
    }
}

/// Removing adjacent duplicates keeps a sorted sequence sorted; where the
/// duplicates are exactly the incomparable elements, it leaves it increasing.
pub proof fn lemma_dedup_sorted<T>(s: Seq<T>, lt: spec_fn(T, T) -> bool, same: spec_fn(T, T) -> bool)
    requires
        strict_weak(lt),
        is_sorted_by(s, lt),
    ensures
        is_sorted_by(dedup_by(s, same), lt),
        (forall|a: T, b: T| #[trigger] same(a, b) <== !lt(a, b) && !lt(b, a)) ==> is_increasing_by(dedup_by(s, same), lt),
    decreases s.len(),
{
    if s.len() > 0 {
        let t = s.drop_last();
        assert(is_sorted_by(t, lt));
        lemma_dedup_sorted(t, lt, same);
        lemma_dedup_by_elems(t, same);
        let d = dedup_by(t, same);
        let r = dedup_by(s, same);
        if !(d.len() > 0 && same(s.last(), d.last())) {
            assert forall|i: int, j: int| 0 <= i < j < r.len() implies !lt(#[trigger] r[j], #[trigger] r[i]) by {
                if j < d.len() {
                    assert(r[i] == d[i] && r[j] == d[j]);
                } else {
                    assert(r[j] == s.last() && r[i] == d[i]);
                    let m = choose|m: int| 0 <= m < t.len() && d[i] == t[m];
                    assert(t[m] == s[m]);
                    assert(!lt(s[s.len() - 1], s[m]));
                }
            }
            if forall|a: T, b: T| #[trigger] same(a, b) <== !lt(a, b) && !lt(b, a) {
                assert forall|i: int, j: int| 0 <= i < j < r.len() implies lt(#[trigger] r[i], #[trigger] r[j]) by {
                    if j < d.len() {
                        assert(r[i] == d[i] && r[j] == d[j]);
                    } else {
                        assert(r[j] == s.last() && r[i] == d[i]);
                        let last = d[d.len() - 1];
                        let m = choose|m: int| 0 <= m < t.len() && last == t[m];
                        assert(t[m] == s[m]);
                        assert(!lt(s[s.len() - 1], s[m]));
                        assert(!same(s.last(), last));
                        assert(lt(last, s.last()));
                        if i < d.len() - 1 {
                            assert(lt(d[i], last));
                            assert(lt(d[i], last) && lt(last, s.last()) ==> lt(d[i], s.last()));
                        }
                    }
                }
            }
        } else {
            assert(r == d);
        }
    }
}

/// Sort `v` stably by `lt`, whose results agree with the spec order `slt`.
pub fn sort_vec_by<T, F: Fn(&T, &T) -> bool>(v: Vec<T>, lt: F, Ghost(slt): Ghost<spec_fn(T, T) -> bool>) -> (r: Vec<T>)
    requires
        forall|a: &T, b: &T| #[trigger] lt.requires((a, b)),
        forall|a: &T, b: &T, res: bool| #[trigger] lt.ensures((a, b), res) ==> res == slt(*a, *b),
    ensures
        r@ == sort_by(v@, slt),
{
    let ghost orig = v@;
    let mut rest = v;
    let mut out: Vec<T> = Vec::new();
    let mut n: usize = 0;
    assert(orig.len() == rest.len());
    assert(orig.take(0) =~= Seq::<T>::empty());
    while rest.len() > 0
        invariant
            n <= orig.len(),
            n + rest.len() == orig.len(),
            orig.len() <= usize::MAX,
            rest@ == orig.skip(n as int),
            out@ == sort_by(orig.take(n as int), slt),
            forall|a: &T, b: &T| #[trigger] lt.requires((a, b)),
            forall|a: &T, b: &T, res: bool| #[trigger] lt.ensures((a, b), res) ==> res == slt(*a, *b),
        decreases rest.len(),
    {
        let x = rest.remove(0);
        assert(x == orig[n as int]);
        let mut j = out.len();
        while j > 0 && lt(&x, &out[j - 1])
            invariant
                j <= out.len(),
                forall|k: int| j <= k < out.len() ==> slt(x, #[trigger] out@[k]),
                forall|a: &T, b: &T| #[trigger] lt.requires((a, b)),
                forall|a: &T, b: &T, res: bool| #[trigger] lt.ensures((a, b), res) ==> res == slt(*a, *b),
            decreases j,
        {
            j -= 1;
        }
        proof {
            lemma_insert_at(out@, x, slt, j as int);
            assert(orig.take(n + 1).drop_last() =~= orig.take(n as int));
            assert(orig.take(n + 1).last() == x);
        }
        let ghost before = out@;
        out.insert(j, x);
        assert(out@ =~= before.take(j as int).push(x) + before.skip(j as int));
        n += 1;
        assert(rest@ =~= orig.skip(n as int));
    }
    assert(orig.take(n as int) =~= orig);
    out
}

// ---------------------------------------------------------------------------
// Adjacent duplicates
// ---------------------------------------------------------------------------
/// `Vec::dedup_by`: drop each element that `same` relates to the element
/// kept before it.
pub open spec fn dedup_by<T>(s: Seq<T>, same: spec_fn(T, T) -> bool) -> Seq<T>
    decreases s.len(),
{
    if s.len() == 0 {
        seq![]
    } else {
        let d = dedup_by(s.drop_last(), same);
        if d.len() > 0 && same(s.last(), d.last()) {
            d
        } else {
            d.push(s.last())
        }
    }
}

/// Removing adjacent duplicates loses no element without keeping one that
/// `same` relates it to.
pub proof fn lemma_dedup_by_keeps<T>(s: Seq<T>, same: spec_fn(T, T) -> bool)
    ensures
        forall|k: int| 0 <= k < s.len() ==> exists|m: int|
            0 <= m < dedup_by(s, same).len() && (#[trigger] dedup_by(s, same)[m] == #[trigger] s[k] || same(
                s[k],
                dedup_by(s, same)[m],
            )),
    decreases s.len(),
{
    if s.len() > 0 {
        let t = s.drop_last();
        lemma_dedup_by_keeps(t, same);
        let d = dedup_by(t, same);
        let r = dedup_by(s, same);
        assert(r.len() >= d.len());
        assert forall|m: int| 0 <= m < d.len() implies r[m] == d[m] by {}
        assert forall|k: int| 0 <= k < s.len() implies exists|m: int|
            0 <= m < r.len() && (#[trigger] r[m] == #[trigger] s[k] || same(s[k], r[m])) by {
            if k < t.len() {
                assert(s[k] == t[k]);
                let m = choose|m: int| 0 <= m < d.len() && (#[trigger] d[m] == #[trigger] t[k] || same(t[k], d[m]));
                assert(r[m] == d[m]);
            } else if d.len() > 0 && same(s.last(), d.last()) {
                assert(r[d.len() - 1] == d.last());
            } else {
                assert(r[d.len() as int] == s.last());
            }
        }
    }
}

/// Removing adjacent duplicates commutes with a map that the two relations
/// agree through.
pub proof fn lemma_dedup_by_map<A, B>(s: Seq<A>, f: spec_fn(A) -> B, sa: spec_fn(A, A) -> bool, sb: spec_fn(B, B) -> bool)
    requires
        forall|p: A, q: A| #[trigger] sa(p, q) == sb(f(p), f(q)),
    ensures
        dedup_by(s, sa).map_values(f) == dedup_by(s.map_values(f), sb),
    decreases s.len(),
{
    if s.len() > 0 {
        lemma_dedup_by_map(s.drop_last(), f, sa, sb);
        assert(s.map_values(f).drop_last() =~= s.drop_last().map_values(f));
        let d = dedup_by(s.drop_last(), sa);
        if d.len() > 0 {
            assert(d.map_values(f).last() == f(d.last()));
        }
        assert(d.push(s.last()).map_values(f) =~= d.map_values(f).push(f(s.last())));
    } else {
        assert(dedup_by(s, sa).map_values(f) =~= Seq::<B>::empty());
    }
}

pub fn dedup_vec_by<T, F: Fn(&T, &T) -> bool>(v: Vec<T>, same: F, Ghost(ssame): Ghost<spec_fn(T, T) -> bool>) -> (r: Vec<T>)
    requires
        forall|a: &T, b: &T| #[trigger] same.requires((a, b)),
        forall|a: &T, b: &T, res: bool| #[trigger] same.ensures((a, b), res) ==> res == ssame(*a, *b),
    ensures
        r@ == dedup_by(v@, ssame),
{
    let ghost orig = v@;
    let mut rest = v;
    let mut out: Vec<T> = Vec::new();
    let mut n: usize = 0;
    assert(orig.len() == rest.len());
    assert(orig.take(0) =~= Seq::<T>::empty());
    while rest.len() > 0
        invariant
            n <= orig.len(),
            n + rest.len() == orig.len(),
            orig.len() <= usize::MAX,
            rest@ == orig.skip(n as int),
            out@ == dedup_by(orig.take(n as int), ssame),
            forall|a: &T, b: &T| #[trigger] same.requires((a, b)),
            forall|a: &T, b: &T, res: bool| #[trigger] same.ensures((a, b), res) ==> res == ssame(*a, *b),
        decreases rest.len(),
    {
        let x = rest.remove(0);
        proof {
            assert(x == orig[n as int]);
            assert(orig.take(n + 1).drop_last() =~= orig.take(n as int));
            assert(orig.take(n + 1).last() == x);
        }
        let keep = if out.len() > 0 {
            let last = out.len() - 1;
            !same(&x, &out[last])
        } else {
            true
        };
        if keep {
            out.push(x);
        }
        n += 1;
        assert(rest@ =~= orig.skip(n as int));
    }
    assert(orig.take(n as int) =~= orig);
    out
}

// ---------------------------------------------------------------------------
// Sorted sets of strings
// ---------------------------------------------------------------------------
pub open spec fn strictly_sorted(s: Seq<Seq<char>>) -> bool {
    forall|i: int, j: int| 0 <= i < j < s.len() ==> lex_lt(s[i], s[j])
}

/// `out` holds the distinct elements of `items`, in increasing order (what
/// collecting into a `BTreeSet` and back gives).
pub open spec fn is_sorted_set_of(out: Seq<Seq<char>>, items: Seq<Seq<char>>) -> bool {
    strictly_sorted(out) && out.to_set() == items.to_set()
}

/// Add `x` to a strictly sorted vector of strings, unless it is there already.
pub fn insert_sorted_unique(v: &mut Vec<String>, x: String)
    requires
        strictly_sorted(views(old(v)@)),
    ensures
        strictly_sorted(views(final(v)@)),
        views(final(v)@).to_set() == views(old(v)@).to_set().insert(x@),
{
    let ghost s = views(v@);
    let mut j: usize = 0;
    while j < v.len() && str_lt(v[j].as_str(), x.as_str())
        invariant
            j <= v.len(),
            s == views(v@),
            forall|k: int| 0 <= k < j ==> lex_lt(#[trigger] s[k], x@),
        decreases v.len() - j,
    {
        j += 1;
    }
    if j < v.len() && crate::text::str_eq(v[j].as_str(), x.as_str()) {
        assert(s[j as int] == x@);
        assert(s.to_set().insert(x@) =~= s.to_set());
        return;
    }
    proof {
        if j < v.len() {
            assert(!lex_lt(s[j as int], x@));
            lemma_lex_total(s[j as int], x@);
            assert(lex_lt(x@, s[j as int]));
        }
    }
    let ghost xv = x@;
    v.insert(j, x);
    proof {
        let t = views(v@);
        assert(t =~= s.take(j as int).push(xv) + s.skip(j as int));
        assert forall|a: int, b: int| 0 <= a < b < t.len() implies lex_lt(t[a], t[b]) by {
            if b < j {
                assert(t[a] == s[a] && t[b] == s[b]);
            } else if b == j {
                assert(t[a] == s[a]);
            } else if a == j {
                assert(t[b] == s[b - 1]);
                if b - 1 > j {
                    lemma_lex_transitive(xv, s[j as int], s[b - 1]);
                }
            } else if a < j {
                assert(t[a] == s[a] && t[b] == s[b - 1]);
                lemma_lex_transitive(s[a], xv, s[j as int]);
                if b - 1 > j {
                    lemma_lex_transitive(s[a], s[j as int], s[b - 1]);
                }
            } else {
                assert(t[a] == s[a - 1] && t[b] == s[b - 1]);
            }
        }
        assert forall|y: Seq<char>| t.to_set().contains(y) <==> s.to_set().insert(xv).contains(y) by {
            if t.to_set().contains(y) {
                let k = choose|k: int| 0 <= k < t.len() && t[k] == y;
                if k < j {
                    assert(s[k] == y);
                } else if k > j {
                    assert(s[k - 1] == y);
                }
            }
            if s.to_set().contains(y) {
                let k = choose|k: int| 0 <= k < s.len() && s[k] == y;
                if k < j {
                    assert(t[k] == y);
                } else {
                    assert(t[k + 1] == y);
                }
            }
            if y == xv {
                assert(t[j as int] == y);
            }
        }
        assert(t.to_set() =~= s.to_set().insert(xv));
    }
}

/// Add each of `items` to the sorted set `v`.
pub fn insert_all_sorted(v: &mut Vec<String>, items: &[String])
    requires
        strictly_sorted(views(old(v)@)),
    ensures
        strictly_sorted(views(final(v)@)),
        views(final(v)@).to_set() == views(old(v)@).to_set() + views(items@).to_set(),
{
    let ghost start = views(v@).to_set();
    let mut i: usize = 0;
    while i < items.len()
        invariant
            i <= items.len(),
            strictly_sorted(views(v@)),
            views(v@).to_set() == start + views(items@).take(i as int).to_set(),
        decreases items.len() - i,
    {
        let ghost pre = views(v@).to_set();
        insert_sorted_unique(v, items[i].clone());
        proof {
            let t = views(items@).take(i + 1);
            assert(t =~= views(items@).take(i as int).push(items@[i as int]@));
            assert(t.to_set() =~= views(items@).take(i as int).to_set().insert(items@[i as int]@)) by {
                assert forall|y: Seq<char>| t.to_set().contains(y) <==> views(items@).take(i as int).to_set().insert(items@[i as int]@).contains(y) by {
                    if t.to_set().contains(y) {
                        let k = choose|k: int| 0 <= k < t.len() && t[k] == y;
                        if k < i {
                            assert(views(items@).take(i as int)[k] == y);
                        }
                    }
                    if views(items@).take(i as int).to_set().contains(y) {
                        let k = choose|k: int| 0 <= k < i && views(items@).take(i as int)[k] == y;
                        assert(t[k] == y);
                    }
                    if y == items@[i as int]@ {
                        assert(t[i as int] == y);
                    }
                }
            }
            assert(views(v@).to_set() =~= start + t.to_set());
        }
        i += 1;
    }
    assert(views(items@).take(items.len() as int) =~= views(items@));
}

} // verus!
