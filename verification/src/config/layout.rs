//! Reshaping configuration maps: flattening nested objects into dotted
//! keys, nesting dotted keys into objects, and merging two maps.

use vstd::prelude::*;
use crate::assoc::{as_map, get_value, has_key, index_of_key, insert_value, keys_unique, lemma_index_of_key};
use crate::config::value::{ConfigValue, clone_value, same_value, objects_wf};
use crate::parse::{split_str, split_str_spec, lemma_split_str_nonempty};
use crate::text::{contains, contains_spec, decimal_spec, u64_to_decimal};
use crate::text::{owned, push_str};

verus! {

/// The key/value pairs that flattening `entries` under `prefix` yields, in
/// order: an object's entries are flattened under the object's key, any
/// other value is kept under its key; a key is joined to a non-empty
/// prefix with the separator.
pub open spec fn flatten_entries(entries: Seq<(String, ConfigValue)>, prefix: Seq<char>, sep: Seq<char>) -> Seq<(Seq<char>, ConfigValue)>
    decreases entries,
{
    if entries.len() == 0 {
        Seq::empty()
    } else {
        proof {
            assert(decreases_to!(entries => entries.drop_last()));
            assert(decreases_to!(entries => entries[entries.len() - 1]));
            assert(decreases_to!(entries[entries.len() - 1] => entries[entries.len() - 1].1));
        }
        let rest = flatten_entries(entries.drop_last(), prefix, sep);
        let k = entries.last().0@;
        let nk = if prefix.len() == 0 { k } else { prefix + sep + k };
        rest + match entries.last().1 {
            ConfigValue::Object(n) => {
                proof {
                    assert(decreases_to!(entries.last().1 => n));
                    assert(decreases_to!(n => n@));
                }
                flatten_entries(n@, nk, sep)
            },
            v => seq![(nk, v)],
        }
    }
}

/// The map that inserting `pairs` in order into `m` gives: a later pair
/// replaces an earlier one with the same key.
pub open spec fn insert_pairs(m: Map<Seq<char>, ConfigValue>, pairs: Seq<(Seq<char>, ConfigValue)>) -> Map<Seq<char>, ConfigValue>
    decreases pairs.len(),
{
    if pairs.len() == 0 {
        m
    } else {
        insert_pairs(m, pairs.drop_last()).insert(pairs.last().0, pairs.last().1)
    }
}

/// Inserting two lists of pairs is inserting the one, then the other.
proof fn lemma_insert_pairs_append(m: Map<Seq<char>, ConfigValue>, a: Seq<(Seq<char>, ConfigValue)>, b: Seq<(Seq<char>, ConfigValue)>)
    ensures
        insert_pairs(m, a + b) == insert_pairs(insert_pairs(m, a), b),
    decreases b.len(),
{
    if b.len() == 0 {
        assert(a + b =~= a);
    } else {
        lemma_insert_pairs_append(m, a, b.drop_last());
        assert((a + b).drop_last() =~= a + b.drop_last());
    }
}

/// `entries` holds each key once, with a copy of the value `m` has for it,
/// and no other key.
pub open spec fn copies_of(entries: Seq<(String, ConfigValue)>, m: Map<Seq<char>, ConfigValue>) -> bool {
    &&& keys_unique(entries)
    &&& forall|k: Seq<char>| #[trigger] as_map(entries).contains_key(k) <==> m.contains_key(k)
    &&& forall|k: Seq<char>| #[trigger] m.contains_key(k) ==> same_value(m[k], as_map(entries)[k])
}

/// The key under a prefix.
fn prefixed_key(prefix: &str, sep: &str, key: &str) -> (r: String)
    ensures
        r@ == if prefix@.len() == 0 { key@ } else { prefix@ + sep@ + key@ },
{
    if crate::text::char_len(prefix) == 0 {
        owned(key)
    } else {
        let mut k = owned(prefix);
        push_str(&mut k, sep);
        push_str(&mut k, key);
        k
    }
}

/// Flattens `entries` under `prefix` into `out`.
fn flatten_into(out: &mut Vec<(String, ConfigValue)>, entries: &Vec<(String, ConfigValue)>, prefix: &str, sep: &str, Ghost(m): Ghost<Map<Seq<char>, ConfigValue>>)
    requires
        copies_of(old(out)@, m),
    ensures
        copies_of(final(out)@, insert_pairs(m, flatten_entries(entries@, prefix@, sep@))),
    decreases *entries,
{
    let mut i: usize = 0;
    let ghost m0 = m;
    assert(entries@.subrange(0, 0) =~= Seq::<(String, ConfigValue)>::empty());
    while i < entries.len()
        invariant
            i <= entries@.len(),
            copies_of(out@, insert_pairs(m0, flatten_entries(entries@.subrange(0, i as int), prefix@, sep@))),
        decreases entries@.len() - i,
    {
        let ghost cur = insert_pairs(m0, flatten_entries(entries@.subrange(0, i as int), prefix@, sep@));
        let ghost sub = entries@.subrange(0, i + 1);
        proof {
            assert(sub.drop_last() =~= entries@.subrange(0, i as int));
            assert(sub.last() == entries@[i as int]);
            assert(decreases_to!(*entries => entries[i as int]));
            assert(decreases_to!(entries[i as int] => entries[i as int].1));
        }
        let key = prefixed_key(prefix, sep, entries[i].0.as_str());
        match &entries[i].1 {
            ConfigValue::Object(nested) => {
                proof {
                    lemma_insert_pairs_append(m0, flatten_entries(entries@.subrange(0, i as int), prefix@, sep@), flatten_entries(nested@, key@, sep@));
                }
                flatten_into(out, nested, key.as_str(), sep, Ghost(cur));
            },
            v => {
                let ghost before = out@;
                let copy = clone_value(v);
                insert_value(out, key, copy);
                proof {
                    let pairs = seq![(key@, *v)];
                    lemma_insert_pairs_append(m0, flatten_entries(entries@.subrange(0, i as int), prefix@, sep@), pairs);
                    assert(pairs.drop_last() =~= Seq::<(Seq<char>, ConfigValue)>::empty());
                    assert(insert_pairs(cur, pairs.drop_last()) == cur);
                    let target = cur.insert(key@, *v);
                    assert(insert_pairs(cur, pairs) == target);
                    assert forall|k: Seq<char>| #[trigger] target.contains_key(k) implies same_value(target[k], as_map(out@)[k]) by {
                        if k != key@ {
                            assert(as_map(before).contains_key(k));
                        }
                    }
                }
            },
        }
        i = i + 1;
    }
    assert(entries@.subrange(0, i as int) =~= entries@);
}

/// Flattens a nested configuration map: the entries of objects move up
/// under dotted keys (joined with `sep`), recursively; other values stay.
/// Where two flattened keys coincide, the later one in the map's order
/// wins.
pub fn flatten_config_map(map: &Vec<(String, ConfigValue)>, sep: &str) -> (r: Vec<(String, ConfigValue)>)
    ensures
        copies_of(r@, insert_pairs(Map::empty(), flatten_entries(map@, Seq::empty(), sep@))),
{
    let mut out: Vec<(String, ConfigValue)> = Vec::new();
    assert(as_map(out@) =~= Map::<Seq<char>, ConfigValue>::empty());
    proof {
        reveal_strlit("");
        assert(""@ =~= Seq::<char>::empty());
    }
    flatten_into(&mut out, map, "", sep, Ghost(Map::empty()));
    out
}

/// Merges two configuration maps: the overlay's values replace the base's.
pub fn merge_config_maps(base: Vec<(String, ConfigValue)>, overlay: Vec<(String, ConfigValue)>) -> (r: Vec<(String, ConfigValue)>)
    requires
        keys_unique(base@),
        keys_unique(overlay@),
    ensures
        keys_unique(r@),
        as_map(r@) == as_map(base@).union_prefer_right(as_map(overlay@)),
{
    let mut result = base;
    let mut rest = overlay;
    let ghost orig = rest@;
    let ghost b0 = as_map(result@);
    let n = rest.len();
    let mut i: usize = 0;
    assert(as_map(orig.subrange(0, 0)) =~= Map::<Seq<char>, ConfigValue>::empty());
    assert(b0.union_prefer_right(Map::<Seq<char>, ConfigValue>::empty()) =~= b0);
    while i < n
        invariant
            n == orig.len(),
            i <= n,
            rest@ == orig.subrange(i as int, n as int),
            keys_unique(orig),
            keys_unique(result@),
            as_map(result@) == b0.union_prefer_right(as_map(orig.subrange(0, i as int))),
        decreases n - i,
    {
        let (k, v) = rest.remove(0);
        proof {
            assert(rest@ =~= orig.subrange(i + 1, n as int));
            assert((k, v) == orig[i as int]);
            let pre = orig.subrange(0, i as int);
            let cur = orig.subrange(0, i + 1);
            assert forall|kk: Seq<char>| has_key(cur, kk) <==> has_key(pre, kk) || kk == k@ by {
                if has_key(cur, kk) {
                    let j = index_of_key(cur, kk);
                    if j < i {
                        assert(pre[j].0@ == kk);
                    }
                }
                if has_key(pre, kk) {
                    let j = index_of_key(pre, kk);
                    assert(cur[j].0@ == kk);
                }
                if kk == k@ {
                    assert(cur[i as int].0@ == kk);
                }
            }
            assert forall|kk: Seq<char>| has_key(cur, kk) implies as_map(cur)[kk] == as_map(pre).insert(k@, v)[kk] by {
                let j = index_of_key(cur, kk);
                assert(keys_unique(cur));
                lemma_index_of_key(cur, j);
                if kk != k@ {
                    assert(j != i);
                    assert(keys_unique(pre));
                    lemma_index_of_key(pre, j);
                } else {
                    lemma_index_of_key(cur, i as int);
                }
            }
            assert(as_map(cur) =~= as_map(pre).insert(k@, v));
        }
        insert_value(&mut result, k, v);
        proof {
            assert(as_map(result@) =~= b0.union_prefer_right(as_map(orig.subrange(0, i + 1))));
        }
        i = i + 1;
    }
    assert(orig.subrange(0, n as int) =~= orig);
    result
}

/// A configuration value seen as a tree: an object is a node mapping keys
/// to subtrees (a later entry replacing an earlier one with the same key);
/// anything else is a leaf.
pub enum ValueTree {
    Leaf(ConfigValue),
    Node(Map<Seq<char>, ValueTree>),
}

/// The tree of a value.
pub open spec fn tree_of(v: ConfigValue) -> ValueTree
    decreases v, 1nat,
{
    match v {
        ConfigValue::Object(e) => {
            proof {
                assert(decreases_to!(v => e));
                assert(decreases_to!(e => e@));
            }
            ValueTree::Node(entries_tree(e@))
        },
        _ => ValueTree::Leaf(v),
    }
}

/// The node of a list of entries.
pub open spec fn entries_tree(e: Seq<(String, ConfigValue)>) -> Map<Seq<char>, ValueTree>
    decreases e, 0nat,
{
    if e.len() == 0 {
        Map::empty()
    } else {
        proof {
            assert(decreases_to!(e => e.drop_last()));
            assert(decreases_to!(e => e[e.len() - 1]));
            assert(decreases_to!(e[e.len() - 1] => e[e.len() - 1].1));
        }
        entries_tree(e.drop_last()).insert(e.last().0@, tree_of(e.last().1))
    }
}

/// With distinct keys, the node maps each key to the tree of its value.
proof fn lemma_entries_tree(e: Seq<(String, ConfigValue)>)
    requires
        keys_unique(e),
    ensures
        forall|k: Seq<char>| #[trigger] entries_tree(e).contains_key(k) <==> as_map(e).contains_key(k),
        forall|k: Seq<char>| #[trigger] entries_tree(e).contains_key(k) ==> entries_tree(e)[k] == tree_of(as_map(e)[k]),
    decreases e.len(),
{
    if e.len() > 0 {
        let pre = e.drop_last();
        lemma_entries_tree(pre);
        assert forall|k: Seq<char>| #[trigger] as_map(e).contains_key(k) <==> (as_map(pre).contains_key(k) || k == e.last().0@) by {
            if has_key(e, k) {
                let q = choose|q: int| 0 <= q < e.len() && #[trigger] e[q].0@ == k;
                if q < pre.len() { assert(pre[q].0@ == k); }
            }
            if has_key(pre, k) {
                let q = choose|q: int| 0 <= q < pre.len() && #[trigger] pre[q].0@ == k;
                assert(e[q].0@ == k);
            }
            if k == e.last().0@ { assert(e[e.len() - 1].0@ == k); }
        }
        assert forall|k: Seq<char>| #[trigger] as_map(e).contains_key(k) implies as_map(e)[k] == (if k == e.last().0@ { e.last().1 } else { as_map(pre)[k] }) by {
            let q = index_of_key(e, k);
            lemma_index_of_key(e, q);
            if q < pre.len() {
                lemma_index_of_key(pre, q);
            }
        }
    }
}

/// Inserting `v` along the path `parts` into a node: the last part takes
/// the value; on the way a missing key gets a new empty node and a node is
/// descended into; a leaf on the way stops the insertion, or, when
/// `replace`, is replaced by a new node.
pub open spec fn insert_path(m: Map<Seq<char>, ValueTree>, parts: Seq<Seq<char>>, v: ConfigValue, replace: bool) -> Map<Seq<char>, ValueTree>
    decreases parts.len(),
{
    if parts.len() <= 1 {
        m.insert(parts[0], tree_of(v))
    } else if !m.contains_key(parts[0]) {
        m.insert(parts[0], ValueTree::Node(insert_path(Map::empty(), parts.skip(1), v, replace)))
    } else {
        match m[parts[0]] {
            ValueTree::Node(n) => m.insert(parts[0], ValueTree::Node(insert_path(n, parts.skip(1), v, replace))),
            ValueTree::Leaf(_) => if replace {
                m.insert(parts[0], ValueTree::Node(insert_path(Map::empty(), parts.skip(1), v, replace)))
            } else {
                m
            },
        }
    }
}

/// Nesting a flat map, entry by entry: a key holding the separator is
/// split at it and its value inserted along the pieces; any other key is
/// set directly.
pub open spec fn nest_spec(e: Seq<(String, ConfigValue)>, sep: Seq<char>) -> Map<Seq<char>, ValueTree>
    decreases e.len(),
{
    if e.len() == 0 {
        Map::empty()
    } else {
        let m = nest_spec(e.drop_last(), sep);
        let k = e.last().0@;
        if contains_spec(k, sep) {
            insert_path(m, split_str_spec(k, sep), e.last().1, false)
        } else {
            m.insert(k, tree_of(e.last().1))
        }
    }
}

/// Every entry's value has objects with distinct keys.
pub open spec fn entries_wf(e: Seq<(String, ConfigValue)>) -> bool {
    forall|i: int| 0 <= i < e.len() ==> objects_wf(#[trigger] e[i].1)
}

/// Replacing the value at position `j` of entries with distinct keys.
proof fn lemma_update_entry(old_e: Seq<(String, ConfigValue)>, j: int, k: String, node: ConfigValue)
    requires
        keys_unique(old_e),
        entries_wf(old_e),
        0 <= j < old_e.len(),
        k@ == old_e[j].0@,
        objects_wf(node),
    ensures
        keys_unique(old_e.update(j, (k, node))),
        entries_wf(old_e.update(j, (k, node))),
        entries_tree(old_e.update(j, (k, node))) == entries_tree(old_e).insert(k@, tree_of(node)),
{
    let r = old_e.update(j, (k, node));
    assert(keys_unique(r)) by {
        assert forall|a: int, b: int| 0 <= a < r.len() && 0 <= b < r.len() && a != b implies r[a].0@ != r[b].0@ by {
            assert(r[a].0@ == old_e[a].0@);
            assert(r[b].0@ == old_e[b].0@);
        }
    }
    lemma_entries_tree(old_e);
    lemma_entries_tree(r);
    let target = entries_tree(old_e).insert(k@, tree_of(node));
    lemma_index_of_key(old_e, j);
    assert forall|kk: Seq<char>| #[trigger] entries_tree(r).contains_key(kk) == target.contains_key(kk) by {
        if has_key(r, kk) {
            let q = choose|q: int| 0 <= q < r.len() && #[trigger] r[q].0@ == kk;
            assert(old_e[q].0@ == kk);
        }
        if has_key(old_e, kk) {
            let q = choose|q: int| 0 <= q < old_e.len() && #[trigger] old_e[q].0@ == kk;
            assert(r[q].0@ == kk);
        }
    }
    assert forall|kk: Seq<char>| #[trigger] entries_tree(r).contains_key(kk) implies entries_tree(r)[kk] == target[kk] by {
        let q = index_of_key(r, kk);
        lemma_index_of_key(r, q);
        if q != j {
            assert(r[q] == old_e[q]);
            lemma_index_of_key(old_e, q);
        }
    }
    assert(entries_tree(r) =~= target);
    assert forall|i: int| 0 <= i < r.len() implies objects_wf(#[trigger] r[i].1) by {
        if i != j { assert(r[i] == old_e[i]); }
    }
}

/// Inserts `value` along `parts[idx..]` into the entries `result`.
fn insert_nested(result: &mut Vec<(String, ConfigValue)>, parts: &Vec<String>, idx: usize, value: ConfigValue, replace: bool)
    requires
        keys_unique(old(result)@),
        entries_wf(old(result)@),
        objects_wf(value),
        idx < parts@.len(),
    ensures
        keys_unique(final(result)@),
        entries_wf(final(result)@),
        entries_tree(final(result)@) == insert_path(entries_tree(old(result)@), parts@.map_values(|x: String| x@).skip(idx as int), value, replace),
    decreases parts@.len() - idx,
{
    let ghost views = parts@.map_values(|x: String| x@);
    let ghost path = views.skip(idx as int);
    let ghost old_e = result@;
    proof {
        lemma_entries_tree(old_e);
        assert(path[0] == parts@[idx as int]@);
    }
    if idx == parts.len() - 1 {
        insert_value(result, parts[idx].clone(), value);
        proof {
            lemma_entries_tree(result@);
            assert(path.len() == 1);
            let target = entries_tree(old_e).insert(path[0], tree_of(value));
            assert forall|k: Seq<char>| #[trigger] entries_tree(result@).contains_key(k) == target.contains_key(k) by {}
            assert(entries_tree(result@) =~= target);
            assert forall|i: int| 0 <= i < result@.len() implies objects_wf(#[trigger] result@[i].1) by {
                let k = result@[i].0@;
                lemma_index_of_key(result@, i);
                if k != parts@[idx as int]@ {
                    let q = index_of_key(old_e, k);
                    lemma_index_of_key(old_e, q);
                    assert(objects_wf(old_e[q].1));
                }
            }
        }
        return;
    }
    let key = parts[idx].as_str();
    proof {
        assert(path.skip(1) =~= views.skip(idx + 1));
    }
    match crate::assoc::find_key(result, key) {
        None => {
            let mut inner: Vec<(String, ConfigValue)> = Vec::new();
            assert(entries_tree(inner@) =~= Map::<Seq<char>, ValueTree>::empty());
            insert_nested(&mut inner, parts, idx + 1, value, replace);
            let ghost inner_e = inner@;
            let node = ConfigValue::Object(inner);
            proof {
                assert(objects_wf(node));
                assert(tree_of(node) == ValueTree::Node(entries_tree(inner_e)));
            }
            insert_value(result, owned(key), node);
            proof {
                lemma_entries_tree(result@);
                let target = entries_tree(old_e).insert(path[0], ValueTree::Node(insert_path(Map::empty(), path.skip(1), value, replace)));
                assert(key@ == path[0]);
                assert forall|kk: Seq<char>| #[trigger] entries_tree(result@).contains_key(kk) == target.contains_key(kk) by {}
                assert forall|kk: Seq<char>| #[trigger] entries_tree(result@).contains_key(kk) implies entries_tree(result@)[kk] == target[kk] by {
                    if kk == key@ {
                        assert(as_map(result@)[kk] == node);
                    } else {
                        assert(as_map(result@)[kk] == as_map(old_e)[kk]);
                    }
                }
                assert(entries_tree(result@) =~= target);
                assert forall|i: int| 0 <= i < result@.len() implies objects_wf(#[trigger] result@[i].1) by {
                    let k = result@[i].0@;
                    lemma_index_of_key(result@, i);
                    if k != key@ {
                        let q = index_of_key(old_e, k);
                        lemma_index_of_key(old_e, q);
                        assert(objects_wf(old_e[q].1));
                    }
                }
            }
        },
        Some(j) => {
            proof {
                lemma_index_of_key(old_e, j as int);
            }
            let (k, v) = result.remove(j);
            let ghost removed = result@;
            match v {
                ConfigValue::Object(mut inner) => {
                    proof {
                        assert(objects_wf(old_e[j as int].1));
                        assert(keys_unique(inner@));
                        assert(entries_wf(inner@));
                    }
                    let ghost inner_old = inner@;
                    insert_nested(&mut inner, parts, idx + 1, value, replace);
                    let ghost inner_new = inner@;
                    let node = ConfigValue::Object(inner);
                    proof {
                        assert(objects_wf(node));
                    }
                    result.insert(j, (k, node));
                    proof {
                        assert(result@ =~= old_e.update(j as int, (k, node)));
                        assert(keys_unique(result@)) by {
                            assert forall|a: int, b: int| 0 <= a < result@.len() && 0 <= b < result@.len() && a != b implies result@[a].0@ != result@[b].0@ by {
                                assert(result@[a].0@ == old_e[a].0@);
                                assert(result@[b].0@ == old_e[b].0@);
                            }
                        }
                        lemma_entries_tree(result@);
                        let target = entries_tree(old_e).insert(path[0], ValueTree::Node(insert_path(entries_tree(inner_old), path.skip(1), value, replace)));
                        assert forall|kk: Seq<char>| #[trigger] entries_tree(result@).contains_key(kk) == target.contains_key(kk) by {
                            if has_key(result@, kk) {
                                let q = choose|q: int| 0 <= q < result@.len() && #[trigger] result@[q].0@ == kk;
                                assert(old_e[q].0@ == kk);
                            }
                            if has_key(old_e, kk) {
                                let q = choose|q: int| 0 <= q < old_e.len() && #[trigger] old_e[q].0@ == kk;
                                assert(result@[q].0@ == kk);
                            }
                        }
                        assert forall|kk: Seq<char>| #[trigger] entries_tree(result@).contains_key(kk) implies entries_tree(result@)[kk] == target[kk] by {
                            let q = index_of_key(result@, kk);
                            lemma_index_of_key(result@, q);
                            if q != j {
                                assert(result@[q] == old_e[q]);
                                lemma_index_of_key(old_e, q);
                            }
                        }
                        assert(entries_tree(result@) =~= target);
                        assert forall|i: int| 0 <= i < result@.len() implies objects_wf(#[trigger] result@[i].1) by {
                            if i != j { assert(result@[i] == old_e[i]); }
                        }
                    }
                },
                other => {
                    if replace {
                        let mut inner: Vec<(String, ConfigValue)> = Vec::new();
                        assert(entries_tree(inner@) =~= Map::<Seq<char>, ValueTree>::empty());
                        insert_nested(&mut inner, parts, idx + 1, value, replace);
                        let ghost inner_new = inner@;
                        let node = ConfigValue::Object(inner);
                        proof {
                            assert(objects_wf(node));
                        }
                        result.insert(j, (k, node));
                        proof {
                            assert(result@ =~= old_e.update(j as int, (k, node)));
                            lemma_update_entry(old_e, j as int, k, node);
                            assert(key@ == path[0]);
                            assert(old_e[j as int].0@ == key@);
                            assert(as_map(old_e)[key@] == old_e[j as int].1);
                            assert(as_map(old_e).contains_key(key@));
                            assert(entries_tree(old_e).contains_key(path[0]));
                            assert(entries_tree(old_e)[path[0]] == tree_of(old_e[j as int].1));
                            assert(!(old_e[j as int].1 is Object));
                            assert(entries_tree(old_e)[path[0]] is Leaf);
                            assert(tree_of(node) == ValueTree::Node(entries_tree(inner_new)));
                        }
                        return;
                    }
                    result.insert(j, (k, other));
                    proof {
                        assert(result@ =~= old_e);
                        assert(key@ == path[0]);
                        assert(old_e[j as int].0@ == key@);
                        assert(as_map(old_e).contains_key(key@));
                        assert(as_map(old_e)[key@] == old_e[j as int].1);
                        assert(entries_tree(old_e).contains_key(key@));
                        assert(entries_tree(old_e)[path[0]] == tree_of(old_e[j as int].1));
                    }
                },
            }
        },
    }
}

/// Nests a flat configuration map: each key holding `sep` is split at it
/// and its value placed in nested objects along the pieces (into existing
/// objects, not through other values); other keys stay as they are.
/// Entries are taken in order.
pub fn nest_config_map(map: Vec<(String, ConfigValue)>, sep: &str) -> (r: Vec<(String, ConfigValue)>)
    requires
        sep@.len() > 0,
        entries_wf(map@),
    ensures
        keys_unique(r@),
        entries_wf(r@),
        entries_tree(r@) == nest_spec(map@, sep@),
{
    let ghost orig = map@;
    let mut rest = map;
    let mut result: Vec<(String, ConfigValue)> = Vec::new();
    let n = rest.len();
    let mut i: usize = 0;
    assert(entries_tree(result@) =~= Map::<Seq<char>, ValueTree>::empty());
    while i < n
        invariant
            n == orig.len(),
            i <= n,
            rest@ == orig.subrange(i as int, n as int),
            entries_wf(orig),
            sep@.len() > 0,
            keys_unique(result@),
            entries_wf(result@),
            entries_tree(result@) == nest_spec(orig.subrange(0, i as int), sep@),
        decreases n - i,
    {
        let (key, value) = rest.remove(0);
        proof {
            assert(rest@ =~= orig.subrange(i + 1, n as int));
            assert((key, value) == orig[i as int]);
            assert(objects_wf(orig[i as int].1));
            let sub = orig.subrange(0, i + 1);
            assert(sub.drop_last() =~= orig.subrange(0, i as int));
            assert(sub.last() == orig[i as int]);
        }
        if contains(key.as_str(), sep) {
            let parts = split_str(key.as_str(), sep);
            proof {
                lemma_split_str_nonempty(key@, sep@);
                assert(parts@.map_values(|x: String| x@).skip(0) =~= parts@.map_values(|x: String| x@));
            }
            insert_nested(&mut result, &parts, 0, value, false);
        } else {
            let ghost before = result@;
            insert_value(&mut result, key, value);
            proof {
                lemma_entries_tree(before);
                lemma_entries_tree(result@);
                let target = entries_tree(before).insert(orig[i as int].0@, tree_of(orig[i as int].1));
                assert forall|kk: Seq<char>| #[trigger] entries_tree(result@).contains_key(kk) == target.contains_key(kk) by {}
                assert forall|kk: Seq<char>| #[trigger] entries_tree(result@).contains_key(kk) implies entries_tree(result@)[kk] == target[kk] by {
                    if kk != orig[i as int].0@ {
                        assert(as_map(result@)[kk] == as_map(before)[kk]);
                    }
                }
                assert(entries_tree(result@) =~= target);
                assert forall|j: int| 0 <= j < result@.len() implies objects_wf(#[trigger] result@[j].1) by {
                    let k = result@[j].0@;
                    lemma_index_of_key(result@, j);
                    if k != orig[i as int].0@ {
                        let q = index_of_key(before, k);
                        lemma_index_of_key(before, q);
                        assert(objects_wf(before[q].1));
                    }
                }
            }
        }
        i = i + 1;
    }
    assert(orig.subrange(0, i as int) =~= orig);
    result
}

/// Nesting a flat map at dots, entry by entry: each key is split at its
/// dots and its value inserted along the pieces, a value that is not an
/// object on the way being replaced by one.
pub open spec fn nest_dotted_spec(e: Seq<(String, ConfigValue)>) -> Map<Seq<char>, ValueTree>
    decreases e.len(),
{
    if e.len() == 0 {
        Map::empty()
    } else {
        insert_path(nest_dotted_spec(e.drop_last()), split_str_spec(e.last().0@, "."@), e.last().1, true)
    }
}

/// Nests a flat configuration map at the dots of its keys, entry by entry;
/// a value that is not an object where a key needs one is replaced by one.
pub fn nest_dotted(map: Vec<(String, ConfigValue)>) -> (r: Vec<(String, ConfigValue)>)
    requires
        entries_wf(map@),
    ensures
        keys_unique(r@),
        entries_wf(r@),
        entries_tree(r@) == nest_dotted_spec(map@),
{
    let ghost orig = map@;
    let mut rest = map;
    let mut result: Vec<(String, ConfigValue)> = Vec::new();
    let n = rest.len();
    let mut i: usize = 0;
    proof {
        reveal_strlit(".");
    }
    assert(entries_tree(result@) =~= Map::<Seq<char>, ValueTree>::empty());
    while i < n
        invariant
            n == orig.len(),
            i <= n,
            rest@ == orig.subrange(i as int, n as int),
            entries_wf(orig),
            "."@.len() == 1,
            keys_unique(result@),
            entries_wf(result@),
            entries_tree(result@) == nest_dotted_spec(orig.subrange(0, i as int)),
        decreases n - i,
    {
        let (key, value) = rest.remove(0);
        proof {
            assert(rest@ =~= orig.subrange(i + 1, n as int));
            assert((key, value) == orig[i as int]);
            assert(objects_wf(orig[i as int].1));
            let sub = orig.subrange(0, i + 1);
            assert(sub.drop_last() =~= orig.subrange(0, i as int));
            assert(sub.last() == orig[i as int]);
        }
        let parts = split_str(key.as_str(), ".");
        proof {
            lemma_split_str_nonempty(key@, "."@);
            assert(parts@.map_values(|x: String| x@).skip(0) =~= parts@.map_values(|x: String| x@));
        }
        insert_nested(&mut result, &parts, 0, value, true);
        i = i + 1;
    }
    assert(orig.subrange(0, i as int) =~= orig);
    result
}

/// A key under a prefix: the key itself under an empty prefix, else the
/// prefix, a dot and the key.
pub open spec fn dotted(prefix: Seq<char>, key: Seq<char>) -> Seq<char> {
    if prefix.len() == 0 { key } else { prefix + "."@ + key }
}

/// The flat entries of a JSON document held as a configuration value, in
/// order: an object's entries and a list's items (keyed by position) are
/// taken under the dotted key, objects and lists flattened further and
/// anything else kept; a plain value is kept under a non-empty prefix.
pub open spec fn json_flat(v: ConfigValue, prefix: Seq<char>) -> Seq<(Seq<char>, ConfigValue)>
    decreases v, 1nat,
{
    match v {
        ConfigValue::Object(e) => {
            proof {
                assert(decreases_to!(v => e));
                assert(decreases_to!(e => e@));
            }
            json_entries_flat(e@, prefix)
        },
        ConfigValue::List(l) => {
            proof {
                assert(decreases_to!(v => l));
                assert(decreases_to!(l => l@));
            }
            json_items_flat(l@, prefix)
        },
        _ => if prefix.len() > 0 { seq![(prefix, v)] } else { Seq::empty() },
    }
}

/// The flat entries of an object's entries under `prefix`.
pub open spec fn json_entries_flat(e: Seq<(String, ConfigValue)>, prefix: Seq<char>) -> Seq<(Seq<char>, ConfigValue)>
    decreases e, 0nat,
{
    if e.len() == 0 {
        Seq::empty()
    } else {
        proof {
            assert(decreases_to!(e => e.drop_last()));
            assert(decreases_to!(e => e[e.len() - 1]));
            assert(decreases_to!(e[e.len() - 1] => e[e.len() - 1].1));
        }
        let k = dotted(prefix, e.last().0@);
        let val = e.last().1;
        json_entries_flat(e.drop_last(), prefix) + if val is Object || val is List { json_flat(val, k) } else { seq![(k, val)] }
    }
}

/// The flat entries of a list's items under `prefix`, keyed by position.
pub open spec fn json_items_flat(l: Seq<ConfigValue>, prefix: Seq<char>) -> Seq<(Seq<char>, ConfigValue)>
    decreases l, 0nat,
{
    if l.len() == 0 {
        Seq::empty()
    } else {
        proof {
            assert(decreases_to!(l => l.drop_last()));
            assert(decreases_to!(l => l[l.len() - 1]));
        }
        let k = dotted(prefix, decimal_spec((l.len() - 1) as nat));
        let val = l.last();
        json_items_flat(l.drop_last(), prefix) + if val is Object || val is List { json_flat(val, k) } else { seq![(k, val)] }
    }
}

/// Adds the entry `(key, v)` when `v` is plain, or `v`'s flat entries.
fn json_child_into(out: &mut Vec<(String, ConfigValue)>, v: &ConfigValue, key: String, Ghost(m): Ghost<Map<Seq<char>, ConfigValue>>)
    requires
        copies_of(old(out)@, m),
    ensures
        copies_of(final(out)@, insert_pairs(m, if *v is Object || *v is List { json_flat(*v, key@) } else { seq![(key@, *v)] })),
    decreases *v, 2nat,
{
    match v {
        ConfigValue::Object(_) => json_flat_into(out, v, key.as_str(), Ghost(m)),
        ConfigValue::List(_) => json_flat_into(out, v, key.as_str(), Ghost(m)),
        _ => {
            let ghost before = out@;
            let ghost k = key@;
            let copy = clone_value(v);
            insert_value(out, key, copy);
            proof {
                let pairs = seq![(k, *v)];
                assert(pairs.drop_last() =~= Seq::<(Seq<char>, ConfigValue)>::empty());
                assert(insert_pairs(m, pairs.drop_last()) == m);
                let target = m.insert(k, *v);
                assert(insert_pairs(m, pairs) == target);
                assert forall|kk: Seq<char>| #[trigger] target.contains_key(kk) implies same_value(target[kk], as_map(out@)[kk]) by {
                    if kk != k {
                        assert(as_map(before).contains_key(kk));
                    }
                }
            }
        },
    }
}

/// Adds the flat entries of `v` under `prefix`.
fn json_flat_into(out: &mut Vec<(String, ConfigValue)>, v: &ConfigValue, prefix: &str, Ghost(m): Ghost<Map<Seq<char>, ConfigValue>>)
    requires
        copies_of(old(out)@, m),
    ensures
        copies_of(final(out)@, insert_pairs(m, json_flat(*v, prefix@))),
    decreases *v, 1nat,
{
    match v {
        ConfigValue::Object(e) => {
            let mut i: usize = 0;
            assert(e@.subrange(0, 0) =~= Seq::<(String, ConfigValue)>::empty());
            while i < e.len()
                invariant
                    i <= e@.len(),
                    *v == ConfigValue::Object(*e),
                    copies_of(out@, insert_pairs(m, json_entries_flat(e@.subrange(0, i as int), prefix@))),
                decreases e@.len() - i,
            {
                let ghost cur = insert_pairs(m, json_entries_flat(e@.subrange(0, i as int), prefix@));
                proof {
                    let sub = e@.subrange(0, i + 1);
                    assert(sub.drop_last() =~= e@.subrange(0, i as int));
                    assert(sub.last() == e@[i as int]);
                    assert(decreases_to!(*v => v->Object_0));
                    assert(decreases_to!(*e => e[i as int]));
                    assert(decreases_to!(e[i as int] => e[i as int].1));
                }
                let key = if crate::text::char_len(prefix) == 0 {
                    e[i].0.clone()
                } else {
                    let mut k = owned(prefix);
                    crate::text::push_str(&mut k, ".");
                    crate::text::push_str(&mut k, e[i].0.as_str());
                    k
                };
                let ghost kv = key@;
                json_child_into(out, &e[i].1, key, Ghost(cur));
                proof {
                    let val = e@[i as int].1;
                    let child = if val is Object || val is List { json_flat(val, kv) } else { seq![(kv, val)] };
                    lemma_insert_pairs_append(m, json_entries_flat(e@.subrange(0, i as int), prefix@), child);
                }
                i = i + 1;
            }
            assert(e@.subrange(0, i as int) =~= e@);
        },
        ConfigValue::List(l) => {
            let mut i: usize = 0;
            assert(l@.subrange(0, 0) =~= Seq::<ConfigValue>::empty());
            while i < l.len()
                invariant
                    i <= l@.len(),
                    *v == ConfigValue::List(*l),
                    copies_of(out@, insert_pairs(m, json_items_flat(l@.subrange(0, i as int), prefix@))),
                decreases l@.len() - i,
            {
                let ghost cur = insert_pairs(m, json_items_flat(l@.subrange(0, i as int), prefix@));
                proof {
                    let sub = l@.subrange(0, i + 1);
                    assert(sub.drop_last() =~= l@.subrange(0, i as int));
                    assert(sub.last() == l@[i as int]);
                    assert(decreases_to!(*v => v->List_0));
                    assert(decreases_to!(*l => l[i as int]));
                }
                let idx = u64_to_decimal(i as u64);
                let key = if crate::text::char_len(prefix) == 0 {
                    idx
                } else {
                    let mut k = owned(prefix);
                    crate::text::push_str(&mut k, ".");
                    crate::text::push_str(&mut k, idx.as_str());
                    k
                };
                let ghost kv = key@;
                json_child_into(out, &l[i], key, Ghost(cur));
                proof {
                    let val = l@[i as int];
                    let child = if val is Object || val is List { json_flat(val, kv) } else { seq![(kv, val)] };
                    lemma_insert_pairs_append(m, json_items_flat(l@.subrange(0, i as int), prefix@), child);
                }
                i = i + 1;
            }
            assert(l@.subrange(0, i as int) =~= l@);
        },
        _ => {
            if crate::text::char_len(prefix) > 0 {
                let ghost before = out@;
                let copy = clone_value(v);
                insert_value(out, owned(prefix), copy);
                proof {
                    let pairs = seq![(prefix@, *v)];
                    assert(pairs.drop_last() =~= Seq::<(Seq<char>, ConfigValue)>::empty());
                    assert(insert_pairs(m, pairs.drop_last()) == m);
                    let target = m.insert(prefix@, *v);
                    assert(insert_pairs(m, pairs) == target);
                    assert forall|kk: Seq<char>| #[trigger] target.contains_key(kk) implies same_value(target[kk], as_map(out@)[kk]) by {
                        if kk != prefix@ {
                            assert(as_map(before).contains_key(kk));
                        }
                    }
                }
            } else {
                assert(json_flat(*v, prefix@) =~= Seq::<(Seq<char>, ConfigValue)>::empty());
            }
        },
    }
}

/// The flat configuration map of a JSON document held as a configuration
/// value: nested keys joined by dots, list items keyed by position; where
/// two flat keys coincide the later one wins.
pub fn json_to_flat_map(value: &ConfigValue, prefix: &str) -> (r: Vec<(String, ConfigValue)>)
    ensures
        copies_of(r@, insert_pairs(Map::empty(), json_flat(*value, prefix@))),
{
    let mut out: Vec<(String, ConfigValue)> = Vec::new();
    assert(as_map(out@) =~= Map::<Seq<char>, ConfigValue>::empty());
    json_flat_into(&mut out, value, prefix, Ghost(Map::empty()));
    out
}

/// Neither an object nor a list.
pub open spec fn plain(v: ConfigValue) -> bool {
    !(v is Object) && !(v is List)
}

/// The flat entries of a document hold plain values only.
pub proof fn lemma_json_flat_plain(v: ConfigValue, prefix: Seq<char>)
    ensures
        forall|i: int| 0 <= i < json_flat(v, prefix).len() ==> plain(#[trigger] json_flat(v, prefix)[i].1),
    decreases v, 1nat,
{
    match v {
        ConfigValue::Object(e) => {
            assert(decreases_to!(v => e));
            assert(decreases_to!(e => e@));
            lemma_json_entries_plain(e@, prefix);
            assert(json_flat(v, prefix) == json_entries_flat(e@, prefix));
            assert forall|i: int| 0 <= i < json_flat(v, prefix).len() implies plain(#[trigger] json_flat(v, prefix)[i].1) by {
                assert(plain(json_entries_flat(e@, prefix)[i].1));
            }
        },
        ConfigValue::List(l) => {
            assert(decreases_to!(v => l));
            assert(decreases_to!(l => l@));
            lemma_json_items_plain(l@, prefix);
            assert(json_flat(v, prefix) == json_items_flat(l@, prefix));
            assert forall|i: int| 0 <= i < json_flat(v, prefix).len() implies plain(#[trigger] json_flat(v, prefix)[i].1) by {
                assert(plain(json_items_flat(l@, prefix)[i].1));
            }
        },
        _ => {},
    }
}

/// The flat entries of an object's entries hold plain values only.
pub proof fn lemma_json_entries_plain(e: Seq<(String, ConfigValue)>, prefix: Seq<char>)
    ensures
        forall|i: int| 0 <= i < json_entries_flat(e, prefix).len() ==> plain(#[trigger] json_entries_flat(e, prefix)[i].1),
    decreases e, 0nat,
{
    if e.len() > 0 {
        assert(decreases_to!(e => e.drop_last()));
        assert(decreases_to!(e => e[e.len() - 1]));
        assert(decreases_to!(e[e.len() - 1] => e[e.len() - 1].1));
        lemma_json_entries_plain(e.drop_last(), prefix);
        let k = dotted(prefix, e.last().0@);
        let val = e.last().1;
        let a = json_entries_flat(e.drop_last(), prefix);
        let b = if val is Object || val is List { json_flat(val, k) } else { seq![(k, val)] };
        if val is Object || val is List {
            lemma_json_flat_plain(val, k);
        }
        assert(json_entries_flat(e, prefix) == a + b);
        assert forall|i: int| 0 <= i < (a + b).len() implies plain(#[trigger] (a + b)[i].1) by {
            if i < a.len() {
                assert((a + b)[i] == a[i]);
            } else {
                assert((a + b)[i] == b[i - a.len()]);
            }
        }
    }
}

/// The flat entries of a list's items hold plain values only.
pub proof fn lemma_json_items_plain(l: Seq<ConfigValue>, prefix: Seq<char>)
    ensures
        forall|i: int| 0 <= i < json_items_flat(l, prefix).len() ==> plain(#[trigger] json_items_flat(l, prefix)[i].1),
    decreases l, 0nat,
{
    if l.len() > 0 {
        assert(decreases_to!(l => l.drop_last()));
        assert(decreases_to!(l => l[l.len() - 1]));
        lemma_json_items_plain(l.drop_last(), prefix);
        let k = dotted(prefix, decimal_spec((l.len() - 1) as nat));
        let val = l.last();
        let a = json_items_flat(l.drop_last(), prefix);
        let b = if val is Object || val is List { json_flat(val, k) } else { seq![(k, val)] };
        if val is Object || val is List {
            lemma_json_flat_plain(val, k);
        }
        assert(json_items_flat(l, prefix) == a + b);
        assert forall|i: int| 0 <= i < (a + b).len() implies plain(#[trigger] (a + b)[i].1) by {
            if i < a.len() {
                assert((a + b)[i] == a[i]);
            } else {
                assert((a + b)[i] == b[i - a.len()]);
            }
        }
    }
}

/// Each value of the map built from pairs is the value of some pair.
pub proof fn lemma_insert_pairs_values(pairs: Seq<(Seq<char>, ConfigValue)>)
    ensures
        forall|k: Seq<char>| #[trigger] insert_pairs(Map::empty(), pairs).contains_key(k) ==>
            exists|i: int| 0 <= i < pairs.len() && pairs[i].1 == insert_pairs(Map::empty(), pairs)[k],
    decreases pairs.len(),
{
    if pairs.len() > 0 {
        lemma_insert_pairs_values(pairs.drop_last());
        let m = insert_pairs(Map::empty(), pairs);
        assert forall|k: Seq<char>| #[trigger] m.contains_key(k) implies
            exists|i: int| 0 <= i < pairs.len() && pairs[i].1 == m[k] by {
            if k == pairs.last().0 {
                assert(pairs[pairs.len() - 1].1 == m[k]);
            } else {
                let p = pairs.drop_last();
                assert(insert_pairs(Map::empty(), p).contains_key(k));
                let i = choose|i: int| 0 <= i < p.len() && p[i].1 == insert_pairs(Map::empty(), p)[k];
                assert(pairs[i] == p[i]);
            }
        }
    }
}

/// The flat map of a document holds plain values only, so its objects
/// (there are none) are well formed.
pub proof fn lemma_flat_map_wf(r: Seq<(String, ConfigValue)>, v: ConfigValue)
    requires
        copies_of(r, insert_pairs(Map::empty(), json_flat(v, Seq::empty()))),
    ensures
        entries_wf(r),
{
    let pairs = json_flat(v, Seq::empty());
    let m = insert_pairs(Map::empty(), pairs);
    lemma_json_flat_plain(v, Seq::empty());
    lemma_insert_pairs_values(pairs);
    assert forall|i: int| 0 <= i < r.len() implies objects_wf(#[trigger] r[i].1) by {
        let k = r[i].0@;
        lemma_index_of_key(r, i);
        assert(m.contains_key(k));
        let j = choose|j: int| 0 <= j < pairs.len() && pairs[j].1 == m[k];
        assert(plain(pairs[j].1));
        assert(same_value(m[k], as_map(r)[k]));
    }
}

/// `b` is an entry-by-entry copy of `a`.
pub open spec fn same_entries_cv(a: Seq<(String, ConfigValue)>, b: Seq<(String, ConfigValue)>) -> bool {
    &&& a.len() == b.len()
    &&& forall|i: int| 0 <= i < a.len() ==> (#[trigger] a[i]).0@ == b[i].0@ && same_value(a[i].1, b[i].1)
}

} // verus!
