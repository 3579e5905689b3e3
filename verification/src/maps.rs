//! Maps from names to values kept as vectors sorted by name (the order in
//! which a `BTreeMap` walks its entries).
use vstd::prelude::*;

use crate::model::{names_view, NameMap};
use crate::order::{lemma_lex_irreflexive, lemma_lex_total, lemma_lex_transitive, lex_lt, str_lt};
use crate::text::str_eq;

verus! {

/// The map that inserting the entries in order gives (a later entry for a
/// name replaces an earlier one).
pub open spec fn map_of(entries: Seq<(Seq<char>, Seq<char>)>) -> Map<Seq<char>, Seq<char>>
    decreases entries.len(),
{
    if entries.len() == 0 {
        Map::empty()
    } else {
        map_of(entries.drop_last()).insert(entries.last().0, entries.last().1)
    }
}

pub open spec fn keys_sorted(entries: Seq<(Seq<char>, Seq<char>)>) -> bool {
    forall|i: int, j: int| 0 <= i < j < entries.len() ==> lex_lt(entries[i].0, entries[j].0)
}

/// `m` is the map `want` laid out by increasing name.
pub open spec fn is_sorted_map(m: Seq<(Seq<char>, Seq<char>)>, want: Map<Seq<char>, Seq<char>>) -> bool {
    keys_sorted(m) && map_of(m) == want
}

proof fn lemma_map_of_sorted(s: Seq<(Seq<char>, Seq<char>)>)
    requires
        keys_sorted(s),
    ensures
        forall|i: int| 0 <= i < s.len() ==> map_of(s).contains_key(#[trigger] s[i].0) && map_of(s)[s[i].0]
            == s[i].1,
        forall|k: Seq<char>| map_of(s).contains_key(k) ==> exists|i: int| 0 <= i < s.len() && s[i].0 == k,
    decreases s.len(),
{
    if s.len() > 0 {
        let t = s.drop_last();
        assert(keys_sorted(t));
        lemma_map_of_sorted(t);
        assert forall|i: int| 0 <= i < s.len() implies map_of(s).contains_key(#[trigger] s[i].0) && map_of(s)[s[i].0]
            == s[i].1 by {
            if i < s.len() - 1 {
                assert(t[i] == s[i]);
                assert(lex_lt(s[i].0, s.last().0));
                lemma_lex_irreflexive(s[i].0);
            }
        }
        assert forall|k: Seq<char>| map_of(s).contains_key(k) implies exists|i: int| 0 <= i < s.len() && s[i].0 == k by {
            if k != s.last().0 {
                assert(map_of(t).contains_key(k));
                assert(exists|i: int| 0 <= i < t.len() && t[i].0 == k);
                let i = choose|i: int| 0 <= i < t.len() && t[i].0 == k;
                assert(s[i] == t[i]);
            } else {
                assert(s[s.len() - 1].0 == k);
            }
        }
    }
}

proof fn lemma_same_maps(a: Seq<(Seq<char>, Seq<char>)>, b: Seq<(Seq<char>, Seq<char>)>, want: Map<Seq<char>, Seq<char>>)
    requires
        keys_sorted(a),
        forall|i: int| 0 <= i < a.len() ==> want.contains_key(#[trigger] a[i].0) && want[a[i].0] == a[i].1,
        forall|k: Seq<char>| want.contains_key(k) ==> exists|i: int| 0 <= i < a.len() && a[i].0 == k,
    ensures
        map_of(a) == want,
{
    lemma_map_of_sorted(a);
    assert forall|k: Seq<char>| #[trigger] map_of(a).contains_key(k) <==> want.contains_key(k) by {
        if want.contains_key(k) {
            let i = choose|i: int| 0 <= i < a.len() && a[i].0 == k;
        }
        if map_of(a).contains_key(k) {
            let i = choose|i: int| 0 <= i < a.len() && a[i].0 == k;
        }
    }
    assert forall|k: Seq<char>| #[trigger] map_of(a).contains_key(k) implies map_of(a)[k] == want[k] by {
        let i = choose|i: int| 0 <= i < a.len() && a[i].0 == k;
    }
    assert(map_of(a) =~= want);
}

/// Set `key` to `value` in a name-sorted map.
pub fn map_insert(m: &mut NameMap, key: String, value: String)
    requires
        keys_sorted(names_view(*old(m))),
    ensures
        keys_sorted(names_view(*final(m))),
        map_of(names_view(*final(m))) == map_of(names_view(*old(m))).insert(key@, value@),
{
    let ghost s = names_view(*m);
    proof {
        lemma_map_of_sorted(s);
    }
    let ghost want = map_of(s).insert(key@, value@);
    let mut j: usize = 0;
    while j < m.len() && str_lt(m[j].0.as_str(), key.as_str())
        invariant
            j <= m.len(),
            s == names_view(*m),
            forall|k: int| 0 <= k < j ==> lex_lt(#[trigger] s[k].0, key@),
        decreases m.len() - j,
    {
        j += 1;
    }
    let ghost kv = key@;
    let ghost vv = value@;
    if j < m.len() && str_eq(m[j].0.as_str(), key.as_str()) {
        m.set(j, (key, value));
        proof {
            let t = names_view(*m);
            assert(t =~= s.update(j as int, (kv, vv)));
            assert(keys_sorted(t)) by {
                assert forall|a: int, b: int| 0 <= a < b < t.len() implies lex_lt(t[a].0, t[b].0) by {
                    assert(t[a].0 == s[a].0 && t[b].0 == s[b].0);
                }
            }
            assert forall|i: int| 0 <= i < t.len() implies want.contains_key(#[trigger] t[i].0) && want[t[i].0] == t[i].1 by {
                if i != j {
                    assert(t[i] == s[i]);
                    if i < j {
                        assert(lex_lt(s[i].0, s[j as int].0));
                        lemma_lex_irreflexive(s[i].0);
                    } else {
                        assert(lex_lt(s[j as int].0, s[i].0));
                        lemma_lex_irreflexive(s[i].0);
                    }
                }
            }
            assert forall|k: Seq<char>| want.contains_key(k) implies exists|i: int| 0 <= i < t.len() && t[i].0 == k by {
                if k == kv {
                    assert(t[j as int].0 == k);
                } else {
                    let i = choose|i: int| 0 <= i < s.len() && s[i].0 == k;
                    assert(t[i].0 == k);
                }
            }
            lemma_same_maps(t, t, want);
        }
        return;
    }
    proof {
        if j < m.len() {
            lemma_lex_total(s[j as int].0, kv);
        }
    }
    m.insert(j, (key, value));
    proof {
        let t = names_view(*m);
        assert(t =~= s.take(j as int).push((kv, vv)) + s.skip(j as int));
        assert forall|a: int, b: int| 0 <= a < b < t.len() implies lex_lt(t[a].0, t[b].0) by {
            if b < j {
                assert(t[a] == s[a] && t[b] == s[b]);
            } else if b == j {
                assert(t[a] == s[a]);
            } else if a == j {
                assert(t[b] == s[b - 1]);
                if b - 1 > j {
                    lemma_lex_transitive(kv, s[j as int].0, s[b - 1].0);
                }
            } else if a < j {
                assert(t[a] == s[a] && t[b] == s[b - 1]);
                lemma_lex_transitive(s[a].0, kv, s[j as int].0);
                if b - 1 > j {
                    lemma_lex_transitive(s[a].0, s[j as int].0, s[b - 1].0);
                }
            } else {
                assert(t[a] == s[a - 1] && t[b] == s[b - 1]);
            }
        }
        assert forall|i: int| 0 <= i < t.len() implies want.contains_key(#[trigger] t[i].0) && want[t[i].0] == t[i].1 by {
            if i < j {
                assert(t[i] == s[i]);
                lemma_lex_irreflexive(kv);
            } else if i > j {
                assert(t[i] == s[i - 1]);
                lemma_lex_irreflexive(kv);
                if i - 1 > j {
                    lemma_lex_transitive(kv, s[j as int].0, s[i - 1].0);
                }
            }
        }
        assert forall|k: Seq<char>| want.contains_key(k) implies exists|i: int| 0 <= i < t.len() && t[i].0 == k by {
            if k == kv {
                assert(t[j as int].0 == k);
            } else {
                let i = choose|i: int| 0 <= i < s.len() && s[i].0 == k;
                if i < j {
                    assert(t[i].0 == k);
                } else {
                    assert(t[i + 1].0 == k);
                }
            }
        }
        lemma_same_maps(t, t, want);
    }
}

} // verus!
