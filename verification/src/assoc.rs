//! Association lists keyed by strings: the keyed collections of the
//! library (record fields, cache levels, registries, counters) hold their
//! entries in insertion order, with each key at most once.

use vstd::prelude::*;
use crate::text::str_eq;

verus! {

/// No key occurs twice.
pub open spec fn keys_unique<V>(s: Seq<(String, V)>) -> bool {
    forall|i: int, j: int| 0 <= i < s.len() && 0 <= j < s.len() && i != j ==> s[i].0@ != s[j].0@
}

/// Some entry has key `k`.
pub open spec fn has_key<V>(s: Seq<(String, V)>, k: Seq<char>) -> bool {
    exists|i: int| 0 <= i < s.len() && #[trigger] s[i].0@ == k
}

/// The position of key `k` (meaningful when `has_key`).
pub open spec fn index_of_key<V>(s: Seq<(String, V)>, k: Seq<char>) -> int {
    choose|i: int| 0 <= i < s.len() && #[trigger] s[i].0@ == k
}

/// The keys, in order.
pub open spec fn key_seq<V>(s: Seq<(String, V)>) -> Seq<Seq<char>> {
    s.map_values(|e: (String, V)| e.0@)
}

/// The entries as a map from key to value.
pub open spec fn as_map<V>(s: Seq<(String, V)>) -> Map<Seq<char>, V> {
    Map::new(|k: Seq<char>| has_key(s, k), |k: Seq<char>| s[index_of_key(s, k)].1)
}

/// With unique keys, the entry at `i` is the one `index_of_key` picks.
pub proof fn lemma_index_of_key<V>(s: Seq<(String, V)>, i: int)
    requires
        keys_unique(s),
        0 <= i < s.len(),
    ensures
        has_key(s, s[i].0@),
        index_of_key(s, s[i].0@) == i,
        as_map(s).contains_key(s[i].0@),
        as_map(s)[s[i].0@] == s[i].1,
{
    let k = s[i].0@;
    assert(has_key(s, k));
    let j = index_of_key(s, k);
    assert(s[j].0@ == k);
}

/// Appending an entry with a fresh key adds that key to the map.
pub proof fn lemma_as_map_push<V>(s: Seq<(String, V)>, e: (String, V))
    requires
        keys_unique(s.push(e)),
    ensures
        keys_unique(s),
        as_map(s.push(e)) == as_map(s).insert(e.0@, e.1),
{
    let t = s.push(e);
    assert(keys_unique(s)) by {
        assert forall|i: int, j: int| 0 <= i < s.len() && 0 <= j < s.len() && i != j implies s[i].0@ != s[j].0@ by {
            assert(t[i] == s[i] && t[j] == s[j]);
        }
    }
    assert forall|k: Seq<char>| has_key(t, k) <==> (has_key(s, k) || k == e.0@) by {
        if has_key(s, k) {
            let i = choose|i: int| 0 <= i < s.len() && #[trigger] s[i].0@ == k;
            assert(t[i].0@ == k);
        }
        if k == e.0@ {
            assert(t[s.len() as int].0@ == k);
        }
        if has_key(t, k) && k != e.0@ {
            let i = choose|i: int| 0 <= i < t.len() && #[trigger] t[i].0@ == k;
            assert(i < s.len());
            assert(s[i].0@ == k);
        }
    }
    assert forall|k: Seq<char>| #[trigger] as_map(t).contains_key(k) implies as_map(t)[k] == as_map(s).insert(e.0@, e.1)[k] by {
        if k == e.0@ {
            lemma_index_of_key(t, s.len() as int);
        } else {
            let j = index_of_key(t, k);
            assert(t[j].0@ == k);
            assert(j < s.len());
            assert(t[j] == s[j]);
            lemma_index_of_key(s, j);
        }
    }
    assert(as_map(t) =~= as_map(s).insert(e.0@, e.1));
}

/// Entries with unique keys taken in order: the map of the first `i + 1`
/// adds entry `i` to the map of the first `i`.
pub proof fn lemma_as_map_prefix<V>(s: Seq<(String, V)>, i: int)
    requires
        keys_unique(s),
        0 <= i < s.len(),
    ensures
        keys_unique(s.subrange(0, i + 1)),
        as_map(s.subrange(0, i + 1)) == as_map(s.subrange(0, i)).insert(s[i].0@, s[i].1),
{
    let a = s.subrange(0, i);
    let b = s.subrange(0, i + 1);
    assert(b =~= a.push(s[i]));
    assert(keys_unique(b)) by {
        assert forall|x: int, y: int| 0 <= x < b.len() && 0 <= y < b.len() && x != y implies b[x].0@ != b[y].0@ by {
            assert(b[x] == s[x] && b[y] == s[y]);
        }
    }
    lemma_as_map_push(a, s[i]);
}

/// With unique keys, there are as many keys in the map as entries.
pub proof fn lemma_unique_keys_len<V>(s: Seq<(String, V)>)
    requires
        keys_unique(s),
    ensures
        as_map(s).dom().finite(),
        as_map(s).dom().len() == s.len(),
    decreases s.len(),
{
    if s.len() == 0 {
        assert(as_map(s).dom() =~= Set::<Seq<char>>::empty());
    } else {
        let pre = s.drop_last();
        lemma_unique_keys_len(pre);
        assert(as_map(s).dom() =~= as_map(pre).dom().insert(s.last().0@)) by {
            assert forall|k: Seq<char>| #[trigger] as_map(s).dom().contains(k) == as_map(pre).dom().insert(s.last().0@).contains(k) by {
                if has_key(s, k) {
                    let q = choose|q: int| 0 <= q < s.len() && #[trigger] s[q].0@ == k;
                    if q < pre.len() { assert(pre[q].0@ == k); }
                }
                if has_key(pre, k) {
                    let q = choose|q: int| 0 <= q < pre.len() && #[trigger] pre[q].0@ == k;
                    assert(s[q].0@ == k);
                }
                if k == s.last().0@ { assert(s[s.len() - 1].0@ == k); }
            }
        }
        assert(!as_map(pre).dom().contains(s.last().0@)) by {
            if has_key(pre, s.last().0@) {
                let q = choose|q: int| 0 <= q < pre.len() && #[trigger] pre[q].0@ == s.last().0@;
                assert(s[q].0@ == s[s.len() - 1].0@);
            }
        }
    }
}

/// The position of key `k`, if present.
pub fn find_key<V>(v: &Vec<(String, V)>, k: &str) -> (r: Option<usize>)
    ensures
        match r {
            Some(i) => i < v@.len() && v@[i as int].0@ == k@,
            None => !has_key(v@, k@),
        },
{
    let mut i: usize = 0;
    while i < v.len()
        invariant
            i <= v.len(),
            forall|j: int| 0 <= j < i ==> v@[j].0@ != k@,
        decreases v.len() - i,
    {
        if str_eq(v[i].0.as_str(), k) {
            return Some(i);
        }
        i = i + 1;
    }
    None
}

/// The value stored under key `k`, if any.
pub fn get_value<'a, V>(v: &'a Vec<(String, V)>, k: &str) -> (r: Option<&'a V>)
    requires
        keys_unique(v@),
    ensures
        match r {
            Some(x) => as_map(v@).contains_key(k@) && as_map(v@)[k@] == *x,
            None => !as_map(v@).contains_key(k@),
        },
{
    match find_key(v, k) {
        Some(i) => {
            proof {
                lemma_index_of_key(v@, i as int);
            }
            Some(&v[i].1)
        },
        None => None,
    }
}

/// Stores `val` under `k`: an existing entry keeps its position and takes
/// the new value, a new key is appended.
pub fn insert_value<V>(v: &mut Vec<(String, V)>, k: String, val: V)
    requires
        keys_unique(old(v)@),
    ensures
        keys_unique(final(v)@),
        as_map(final(v)@) == as_map(old(v)@).insert(k@, val),
        key_seq(final(v)@) == if has_key(old(v)@, k@) {
            key_seq(old(v)@)
        } else {
            key_seq(old(v)@).push(k@)
        },
{
    let ghost old_s = v@;
    match find_key(v, k.as_str()) {
        Some(i) => {
            v.set(i, (k, val));
            proof {
                let s = v@;
                assert(forall|j: int| 0 <= j < s.len() ==> #[trigger] s[j].0@ == old_s[j].0@);
                assert(keys_unique(s));
                assert(key_seq(s) =~= key_seq(old_s));
                assert forall|kk: Seq<char>| has_key(s, kk) <==> has_key(old_s, kk) || kk == k@ by {
                    if has_key(old_s, kk) {
                        let j = index_of_key(old_s, kk);
                        assert(s[j].0@ == kk);
                    }
                    if has_key(s, kk) {
                        let j = index_of_key(s, kk);
                        assert(old_s[j].0@ == kk);
                    }
                }
                assert forall|kk: Seq<char>| has_key(s, kk) implies as_map(s)[kk] == as_map(old_s).insert(k@, val)[kk] by {
                    let j = index_of_key(s, kk);
                    lemma_index_of_key(s, j);
                    if kk == k@ {
                        lemma_index_of_key(s, i as int);
                    } else {
                        lemma_index_of_key(old_s, j);
                    }
                }
                assert(as_map(s) =~= as_map(old_s).insert(k@, val));
            }
        },
        None => {
            v.push((k, val));
            proof {
                let s = v@;
                let n = old_s.len() as int;
                assert(forall|j: int| 0 <= j < n ==> #[trigger] s[j] == old_s[j]);
                assert(keys_unique(s));
                assert(key_seq(s) =~= key_seq(old_s).push(k@));
                assert forall|kk: Seq<char>| has_key(s, kk) <==> has_key(old_s, kk) || kk == k@ by {
                    if has_key(old_s, kk) {
                        let j = index_of_key(old_s, kk);
                        assert(s[j].0@ == kk);
                    }
                    if kk == k@ {
                        assert(s[n].0@ == kk);
                    }
                    if has_key(s, kk) && kk != k@ {
                        let j = index_of_key(s, kk);
                        assert(old_s[j].0@ == kk);
                    }
                }
                assert forall|kk: Seq<char>| has_key(s, kk) implies as_map(s)[kk] == as_map(old_s).insert(k@, val)[kk] by {
                    let j = index_of_key(s, kk);
                    lemma_index_of_key(s, j);
                    if kk != k@ {
                        lemma_index_of_key(old_s, j);
                    }
                }
                assert(as_map(s) =~= as_map(old_s).insert(k@, val));
            }
        },
    }
}

/// Removes the entry of key `k`, keeping the others in order; returns the
/// removed value.
pub fn remove_value<V>(v: &mut Vec<(String, V)>, k: &str) -> (r: Option<V>)
    requires
        keys_unique(old(v)@),
    ensures
        keys_unique(final(v)@),
        as_map(final(v)@) == as_map(old(v)@).remove(k@),
        match r {
            Some(x) => as_map(old(v)@).contains_key(k@) && as_map(old(v)@)[k@] == x
                && final(v)@.len() + 1 == old(v)@.len(),
            None => !as_map(old(v)@).contains_key(k@) && final(v)@ == old(v)@,
        },
{
    let ghost old_s = v@;
    match find_key(v, k) {
        Some(i) => {
            let (_key, val) = v.remove(i);
            proof {
                let s = v@;
                lemma_index_of_key(old_s, i as int);
                assert(forall|j: int| 0 <= j < i ==> #[trigger] s[j] == old_s[j]);
                assert(forall|j: int| i <= j < s.len() ==> #[trigger] s[j] == old_s[j + 1]);
                assert(keys_unique(s));
                assert forall|kk: Seq<char>| has_key(s, kk) <==> has_key(old_s, kk) && kk != k@ by {
                    if has_key(s, kk) {
                        let j = index_of_key(s, kk);
                        if j < i {
                            assert(old_s[j].0@ == kk);
                        } else {
                            assert(old_s[j + 1].0@ == kk);
                        }
                    }
                    if has_key(old_s, kk) && kk != k@ {
                        let j = index_of_key(old_s, kk);
                        if j < i {
                            assert(s[j].0@ == kk);
                        } else {
                            assert(j != i);
                            assert(s[j - 1].0@ == kk);
                        }
                    }
                }
                assert forall|kk: Seq<char>| has_key(s, kk) implies as_map(s)[kk] == as_map(old_s)[kk] by {
                    let j = index_of_key(s, kk);
                    lemma_index_of_key(s, j);
                    if j < i {
                        lemma_index_of_key(old_s, j);
                    } else {
                        lemma_index_of_key(old_s, j + 1);
                    }
                }
                assert(as_map(s) =~= as_map(old_s).remove(k@));
            }
            Some(val)
        },
        None => {
            proof {
                assert(as_map(old_s) =~= as_map(old_s).remove(k@));
            }
            None
        },
    }
}

/// `s` is one of the strings of `v`.
pub open spec fn in_list(v: Seq<String>, s: Seq<char>) -> bool {
    exists|i: int| 0 <= i < v.len() && #[trigger] v[i]@ == s
}

/// No string occurs twice in `v`.
pub open spec fn distinct_strings(v: Seq<String>) -> bool {
    forall|i: int, j: int| 0 <= i < v.len() && 0 <= j < v.len() && i != j ==> v[i]@ != v[j]@
}

/// Whether `s` is one of the strings of `v`.
pub fn list_contains(v: &Vec<String>, s: &str) -> (r: bool)
    ensures
        r == in_list(v@, s@),
{
    let mut i: usize = 0;
    while i < v.len()
        invariant
            i <= v.len(),
            forall|j: int| 0 <= j < i ==> v@[j]@ != s@,
        decreases v.len() - i,
    {
        if str_eq(v[i].as_str(), s) {
            return true;
        }
        i = i + 1;
    }
    false
}

/// The strings of `v` other than `s`, in order.
pub open spec fn without(v: Seq<Seq<char>>, s: Seq<char>) -> Seq<Seq<char>>
    decreases v.len(),
{
    if v.len() == 0 {
        Seq::empty()
    } else if v.last() == s {
        without(v.drop_last(), s)
    } else {
        without(v.drop_last(), s).push(v.last())
    }
}

/// Removes every occurrence of `s`, keeping the other strings in order.
pub fn list_remove_all(v: &mut Vec<String>, s: &str)
    ensures
        v_views(final(v)@) == without(v_views(old(v)@), s@),
        forall|x: Seq<char>| in_list(final(v)@, x) <==> in_list(old(v)@, x) && x != s@,
        distinct_strings(old(v)@) ==> distinct_strings(final(v)@),
{
    let ghost orig = v@;
    let mut out: Vec<String> = Vec::new();
    let mut i: usize = 0;
    while i < v.len()
        invariant
            i <= v@.len(),
            v@ == orig,
            v_views(out@) == without(v_views(orig.subrange(0, i as int)), s@),
            forall|x: Seq<char>| in_list(out@, x) <==> in_list(orig.subrange(0, i as int), x) && x != s@,
            forall|a: int| 0 <= a < out@.len() ==> exists|b: int| 0 <= b < i && (#[trigger] out@[a])@ == orig[b]@,
            distinct_strings(orig) ==> distinct_strings(out@),
        decreases v@.len() - i,
    {
        let ghost before = out@;
        proof {
            assert(v_views(orig.subrange(0, i + 1)).drop_last() =~= v_views(orig.subrange(0, i as int)));
            assert(v_views(orig.subrange(0, i + 1)).last() == orig[i as int]@);
        }
        if !str_eq(v[i].as_str(), s) {
            out.push(v[i].clone());
            assert(v_views(out@) =~= v_views(before).push(orig[i as int]@));
            proof {
                assert(orig.subrange(0, i + 1) =~= orig.subrange(0, i as int).push(orig[i as int]));
                assert forall|x: Seq<char>| in_list(out@, x) <==> in_list(orig.subrange(0, i + 1), x) && x != s@ by {
                    lemma_in_list_push(before, orig[i as int], x);
                    lemma_in_list_push(orig.subrange(0, i as int), orig[i as int], x);
                }
                if distinct_strings(orig) {
                    assert forall|a: int, b: int| 0 <= a < out@.len() && 0 <= b < out@.len() && a != b implies out@[a]@ != out@[b]@ by {
                        if a == before.len() || b == before.len() {
                            let o = if a == before.len() { b } else { a };
                            let w = choose|w: int| 0 <= w < i && (#[trigger] before[o])@ == orig[w]@;
                            assert(orig[w]@ != orig[i as int]@);
                        }
                    }
                }
            }
        } else {
            proof {
                assert(orig.subrange(0, i + 1) =~= orig.subrange(0, i as int).push(orig[i as int]));
                assert forall|x: Seq<char>| in_list(out@, x) <==> in_list(orig.subrange(0, i + 1), x) && x != s@ by {
                    lemma_in_list_push(orig.subrange(0, i as int), orig[i as int], x);
                }
            }
        }
        i = i + 1;
    }
    assert(orig.subrange(0, i as int) =~= orig);
    *v = out;
}

/// A string is in a list with one more string when it is in the list or
/// is the new one.
pub proof fn lemma_in_list_push(v: Seq<String>, e: String, x: Seq<char>)
    ensures
        in_list(v.push(e), x) <==> in_list(v, x) || e@ == x,
{
    if in_list(v, x) {
        let j = choose|j: int| 0 <= j < v.len() && #[trigger] v[j]@ == x;
        assert(v.push(e)[j]@ == x);
    }
    if e@ == x {
        assert(v.push(e)[v.len() as int]@ == x);
    }
    if in_list(v.push(e), x) && e@ != x {
        let j = choose|j: int| 0 <= j < v.len() + 1 && #[trigger] v.push(e)[j]@ == x;
        assert(v[j]@ == x);
    }
}

/// The views of a list of strings.
pub open spec fn v_views(v: Seq<String>) -> Seq<Seq<char>> {
    v.map_values(|x: String| x@)
}

/// Adds `s` to a list of distinct strings unless it is there already.
pub fn set_insert(v: &mut Vec<String>, s: String)
    requires
        distinct_strings(old(v)@),
    ensures
        distinct_strings(final(v)@),
        forall|x: Seq<char>| in_list(final(v)@, x) <==> in_list(old(v)@, x) || x == s@,
        final(v)@.len() <= old(v)@.len() + 1,
{
    if !list_contains(v, s.as_str()) {
        let ghost old_v = v@;
        v.push(s);
        proof {
            assert(forall|j: int| 0 <= j < old_v.len() ==> #[trigger] v@[j] == old_v[j]);
            assert forall|x: Seq<char>| in_list(v@, x) <==> in_list(old_v, x) || x == v@.last()@ by {
                if in_list(v@, x) && x != v@.last()@ {
                    let j = choose|j: int| 0 <= j < v@.len() && #[trigger] v@[j]@ == x;
                    assert(old_v[j]@ == x);
                }
                if in_list(old_v, x) {
                    let j = choose|j: int| 0 <= j < old_v.len() && #[trigger] old_v[j]@ == x;
                    assert(v@[j]@ == x);
                }
                if x == v@.last()@ {
                    assert(v@[old_v.len() as int]@ == x);
                }
            }
        }
    }
}

} // verus!
