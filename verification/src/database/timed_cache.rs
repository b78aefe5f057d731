//! A cache of values by key, each kept for a time to live. When it grows
//! beyond its capacity the oldest entries are dropped in one sweep.
//! Instants are milliseconds on a monotonic clock.

use vstd::prelude::*;
use crate::text::{owned, string_views};
use crate::assoc::{as_map, find_key, get_value, has_key, index_of_key, insert_value, key_seq, keys_unique, lemma_index_of_key, remove_value};

verus! {

/// A cached value with the instant it was stored and how long it lives.
#[derive(Debug)]
pub struct TimedEntry<V> {
    pub value: V,
    pub stored_at_ms: u64,
    pub ttl_ms: u64,
}

/// An entry stored at `stored` with lifetime `ttl` is still fresh at `now`:
/// less time than its lifetime has passed (none, when the clock reads
/// earlier than the store).
pub open spec fn is_fresh(stored: u64, ttl: u64, now: u64) -> bool {
    (if now >= stored { now - stored } else { 0 }) < ttl
}

/// Values by key with lifetimes; at most `capacity` entries after a store
/// when the store found it full, `sweep` of the oldest being dropped then.
pub struct TimedCache<V> {
    entries: Vec<(String, TimedEntry<V>)>,
    capacity: usize,
    sweep: usize,
}

impl<V> TimedCache<V> {
    /// The entries by key.
    pub closed spec fn entry_map(&self) -> Map<Seq<char>, TimedEntry<V>> {
        as_map(self.entries@)
    }

    /// The number of entries.
    pub closed spec fn size(&self) -> nat {
        self.entries@.len()
    }

    /// The most entries kept before a sweep.
    pub closed spec fn spec_capacity(&self) -> nat {
        self.capacity as nat
    }

    /// How many entries a sweep drops.
    pub closed spec fn spec_sweep(&self) -> nat {
        self.sweep as nat
    }

    /// Each key is held once; the size is the number of keys; a sweep
    /// drops no more entries than the capacity.
    pub closed spec fn wf(&self) -> bool {
        &&& keys_unique(self.entries@)
        &&& self.sweep <= self.capacity
    }

    /// An empty cache.
    pub fn new(capacity: usize, sweep: usize) -> (r: TimedCache<V>)
        requires
            sweep <= capacity,
        ensures
            r.wf(),
            r.size() == 0,
            r.entry_map() == Map::<Seq<char>, TimedEntry<V>>::empty(),
            r.spec_capacity() == capacity,
            r.spec_sweep() == sweep,
    {
        let r = TimedCache { entries: Vec::new(), capacity, sweep };
        assert(as_map(r.entries@) =~= Map::<Seq<char>, TimedEntry<V>>::empty());
        r
    }

    /// The number of entries.
    pub fn len(&self) -> (r: usize)
        ensures
            r == self.size(),
    {
        self.entries.len()
    }

    /// The entry of a key, whether fresh or not.
    pub fn get_entry(&self, key: &str) -> (r: Option<&TimedEntry<V>>)
        requires
            self.wf(),
        ensures
            match r {
                Some(e) => self.entry_map().contains_key(key@) && *e == self.entry_map()[key@],
                None => !self.entry_map().contains_key(key@),
            },
    {
        get_value(&self.entries, key)
    }

    /// The value of a key if its entry is still fresh at `now`.
    pub fn get_fresh(&self, key: &str, now: u64) -> (r: Option<&V>)
        requires
            self.wf(),
        ensures
            match r {
                Some(v) => self.entry_map().contains_key(key@)
                    && is_fresh(self.entry_map()[key@].stored_at_ms, self.entry_map()[key@].ttl_ms, now)
                    && *v == self.entry_map()[key@].value,
                None => !self.entry_map().contains_key(key@)
                    || !is_fresh(self.entry_map()[key@].stored_at_ms, self.entry_map()[key@].ttl_ms, now),
            },
    {
        match get_value(&self.entries, key) {
            Some(e) => {
                let age = if now >= e.stored_at_ms { now - e.stored_at_ms } else { 0 };
                if age < e.ttl_ms {
                    Some(&e.value)
                } else {
                    None
                }
            },
            None => None,
        }
    }

    /// Removes and gives back the entry of a key.
    pub fn take(&mut self, key: &str) -> (r: Option<TimedEntry<V>>)
        requires
            old(self).wf(),
        ensures
            final(self).wf(),
            final(self).spec_capacity() == old(self).spec_capacity(),
            final(self).spec_sweep() == old(self).spec_sweep(),
            final(self).entry_map() == old(self).entry_map().remove(key@),
            match r {
                Some(e) => old(self).entry_map().contains_key(key@) && e == old(self).entry_map()[key@]
                    && final(self).size() + 1 == old(self).size(),
                None => !old(self).entry_map().contains_key(key@) && final(self).size() == old(self).size(),
            },
    {
        remove_value(&mut self.entries, key)
    }

    /// Puts an entry back under a key, as it is, with no sweep.
    pub fn put(&mut self, key: String, entry: TimedEntry<V>)
        requires
            old(self).wf(),
        ensures
            final(self).wf(),
            final(self).spec_capacity() == old(self).spec_capacity(),
            final(self).spec_sweep() == old(self).spec_sweep(),
            final(self).entry_map() == old(self).entry_map().insert(key@, entry),
            final(self).size() == if old(self).entry_map().contains_key(key@) { old(self).size() } else { old(self).size() + 1 },
    {
        let ghost had = has_key(self.entries@, key@);
        proof {
            if had {
                let j = index_of_key(self.entries@, key@);
                lemma_index_of_key(self.entries@, j);
            }
        }
        insert_value(&mut self.entries, key, entry);
        assert(key_seq(self.entries@).len() == self.entries@.len());
    }

    /// Stores a value for `key` at `now`. When the cache then holds more
    /// than its capacity, the `sweep` oldest entries are dropped.
    pub fn store(&mut self, key: String, value: V, ttl_ms: u64, now: u64)
        requires
            old(self).wf(),
        ensures
            final(self).wf(),
            final(self).spec_capacity() == old(self).spec_capacity(),
            final(self).spec_sweep() == old(self).spec_sweep(),
            ({
                let stored = old(self).entry_map().insert(key@, TimedEntry { value, stored_at_ms: now, ttl_ms });
                let n = if old(self).entry_map().contains_key(key@) { old(self).size() } else { old(self).size() + 1 };
                if n > old(self).spec_capacity() {
                    &&& final(self).size() == n - old(self).spec_sweep()
                    &&& final(self).entry_map().submap_of(stored)
                    &&& forall|gone: Seq<char>, kept: Seq<char>|
                        #![trigger stored.contains_key(gone), final(self).entry_map().contains_key(kept)]
                        stored.contains_key(gone) && !final(self).entry_map().contains_key(gone)
                            && final(self).entry_map().contains_key(kept)
                            ==> stored[gone].stored_at_ms <= stored[kept].stored_at_ms
                } else {
                    &&& final(self).entry_map() == stored
                    &&& final(self).size() == n
                }
            }),
    {
        let ghost had = has_key(self.entries@, key@);
        proof {
            if had {
                let j = index_of_key(self.entries@, key@);
                lemma_index_of_key(self.entries@, j);
            }
        }
        insert_value(&mut self.entries, key, TimedEntry { value, stored_at_ms: now, ttl_ms });
        proof {
            assert(key_seq(self.entries@).len() == self.entries@.len());
        }
        if self.entries.len() > self.capacity {
            let n = self.sweep;
            self.evict_oldest(n);
        }
    }

    /// Drops the `n` oldest entries, earlier ones first among equals.
    fn evict_oldest(&mut self, n: usize)
        requires
            keys_unique(old(self).entries@),
            n <= old(self).entries@.len(),
            old(self).sweep <= old(self).capacity,
        ensures
            keys_unique(final(self).entries@),
            final(self).capacity == old(self).capacity,
            final(self).sweep == old(self).sweep,
            final(self).entries@.len() == old(self).entries@.len() - n,
            as_map(final(self).entries@).submap_of(as_map(old(self).entries@)),
            forall|gone: Seq<char>, kept: Seq<char>|
                #![trigger as_map(old(self).entries@).contains_key(gone), as_map(final(self).entries@).contains_key(kept)]
                as_map(old(self).entries@).contains_key(gone) && !as_map(final(self).entries@).contains_key(gone)
                    && as_map(final(self).entries@).contains_key(kept)
                    ==> as_map(old(self).entries@)[gone].stored_at_ms <= as_map(old(self).entries@)[kept].stored_at_ms,
    {
        let ghost orig = self.entries@;
        let mut removed: usize = 0;
        while removed < n
            invariant
                keys_unique(self.entries@),
                removed <= n <= orig.len(),
                self.entries@.len() == orig.len() - removed,
                self.capacity == old(self).capacity,
                self.sweep == old(self).sweep,
                orig == old(self).entries@,
                as_map(self.entries@).submap_of(as_map(orig)),
                forall|gone: Seq<char>, kept: Seq<char>|
                    #![trigger as_map(orig).contains_key(gone), as_map(self.entries@).contains_key(kept)]
                    as_map(orig).contains_key(gone) && !as_map(self.entries@).contains_key(gone)
                        && as_map(self.entries@).contains_key(kept)
                        ==> as_map(orig)[gone].stored_at_ms <= as_map(orig)[kept].stored_at_ms,
            decreases n - removed,
        {
            let m = self.oldest_index();
            let ghost before = self.entries@;
            let ghost mkey = before[m as int].0@;
            proof {
                lemma_index_of_key(before, m as int);
            }
            let k = self.entries[m].0.clone();
            let _ = remove_value(&mut self.entries, k.as_str());
            proof {
                lemma_removed_len(before, self.entries@, mkey);
                assert forall|gone: Seq<char>, kept: Seq<char>|
                    as_map(orig).contains_key(gone) && !as_map(self.entries@).contains_key(gone)
                        && as_map(self.entries@).contains_key(kept)
                        implies as_map(orig)[gone].stored_at_ms <= as_map(orig)[kept].stored_at_ms by {
                    assert(as_map(before).contains_key(kept));
                    if gone == mkey {
                        let j = index_of_key(before, kept);
                        lemma_index_of_key(before, j);
                        assert(before[j].0@ == kept);
                    }
                }
            }
            removed = removed + 1;
        }
    }

    /// The position of the oldest entry, the first among equals.
    fn oldest_index(&self) -> (r: usize)
        requires
            self.entries@.len() > 0,
        ensures
            r < self.entries@.len(),
            forall|j: int| 0 <= j < self.entries@.len() ==>
                self.entries@[r as int].1.stored_at_ms <= (#[trigger] self.entries@[j]).1.stored_at_ms,
    {
        let mut best: usize = 0;
        let mut i: usize = 1;
        while i < self.entries.len()
            invariant
                best < i <= self.entries@.len(),
                forall|j: int| 0 <= j < i ==>
                    self.entries@[best as int].1.stored_at_ms <= (#[trigger] self.entries@[j]).1.stored_at_ms,
            decreases self.entries@.len() - i,
        {
            if self.entries[i].1.stored_at_ms < self.entries[best].1.stored_at_ms {
                best = i;
            }
            i = i + 1;
        }
        best
    }
}

/// Removing a present key from a list with unique keys shortens it by one.
proof fn lemma_removed_len<V>(before: Seq<(String, V)>, after: Seq<(String, V)>, k: Seq<char>)
    requires
        keys_unique(before),
        keys_unique(after),
        has_key(before, k),
        as_map(after) == as_map(before).remove(k),
    ensures
        after.len() == before.len() - 1,
{
    lemma_len_is_dom_size(before);
    lemma_len_is_dom_size(after);
    assert(as_map(before).dom().contains(k));
    assert(as_map(before).remove(k).dom() =~= as_map(before).dom().remove(k));
}

/// With unique keys, the length of the list is the number of keys.
pub proof fn lemma_len_is_dom_size<V>(s: Seq<(String, V)>)
    requires
        keys_unique(s),
    ensures
        as_map(s).dom().finite(),
        as_map(s).dom().len() == s.len(),
    decreases s.len(),
{
    if s.len() == 0 {
        assert(as_map(s).dom() =~= Set::<Seq<char>>::empty());
    } else {
        let p = s.drop_last();
        assert(keys_unique(p));
        lemma_len_is_dom_size(p);
        let k = s.last().0@;
        assert(!has_key(p, k)) by {
            if has_key(p, k) {
                let j = index_of_key(p, k);
                assert(s[j].0@ == k);
            }
        }
        assert forall|kk: Seq<char>| has_key(s, kk) <==> has_key(p, kk) || kk == k by {
            if has_key(s, kk) && kk != k {
                let j = index_of_key(s, kk);
                assert(j != s.len() - 1);
                assert(p[j].0@ == kk);
            }
            if has_key(p, kk) {
                let j = index_of_key(p, kk);
                assert(s[j].0@ == kk);
            }
            if kk == k {
                assert(s[s.len() - 1].0@ == kk);
            }
        }
        assert(as_map(s).dom() =~= as_map(p).dom().insert(k));
    }
}

impl<V> TimedCache<V> {
    /// Drops the entries that are no longer fresh at `now`.
    pub fn retain_fresh(&mut self, now: u64)
        requires
            old(self).wf(),
        ensures
            final(self).wf(),
            final(self).spec_capacity() == old(self).spec_capacity(),
            final(self).spec_sweep() == old(self).spec_sweep(),
            forall|k: Seq<char>| #[trigger] final(self).entry_map().contains_key(k) <==> (old(self).entry_map().contains_key(k)
                && is_fresh(old(self).entry_map()[k].stored_at_ms, old(self).entry_map()[k].ttl_ms, now)),
            final(self).entry_map().submap_of(old(self).entry_map()),
    {
        let ghost orig = self.entries@;
        let mut stale: Vec<String> = Vec::new();
        let mut i: usize = 0;
        while i < self.entries.len()
            invariant
                i <= self.entries@.len(),
                self.entries@ == orig,
                keys_unique(orig),
                forall|j: int| 0 <= j < stale@.len() ==> has_key(orig, #[trigger] stale@[j]@)
                    && !is_fresh(as_map(orig)[stale@[j]@].stored_at_ms, as_map(orig)[stale@[j]@].ttl_ms, now),
                forall|j: int| 0 <= j < i && !is_fresh(#[trigger] orig[j].1.stored_at_ms, orig[j].1.ttl_ms, now)
                    ==> exists|x: int| 0 <= x < stale@.len() && stale@[x]@ == orig[j].0@,
            decreases self.entries@.len() - i,
        {
            let e = &self.entries[i].1;
            let age = if now >= e.stored_at_ms { now - e.stored_at_ms } else { 0 };
            let ghost old_stale = stale@;
            proof {
                lemma_index_of_key(orig, i as int);
            }
            if !(age < e.ttl_ms) {
                stale.push(self.entries[i].0.clone());
                assert(stale@[stale@.len() - 1]@ == orig[i as int].0@);
            }
            proof {
                assert forall|j: int| 0 <= j < i + 1 && !is_fresh(#[trigger] orig[j].1.stored_at_ms, orig[j].1.ttl_ms, now)
                    implies exists|x: int| 0 <= x < stale@.len() && stale@[x]@ == orig[j].0@ by {
                    if j < i {
                        let x = choose|x: int| 0 <= x < old_stale.len() && old_stale[x]@ == orig[j].0@;
                        assert(stale@[x] == old_stale[x]);
                    } else {
                        assert(stale@[stale@.len() - 1]@ == orig[j].0@);
                    }
                }
            }
            i = i + 1;
        }
        let mut j: usize = 0;
        while j < stale.len()
            invariant
                j <= stale@.len(),
                keys_unique(orig),
                keys_unique(self.entries@),
                self.capacity == old(self).capacity,
                self.sweep == old(self).sweep,
                forall|x: int| 0 <= x < stale@.len() ==> has_key(orig, #[trigger] stale@[x]@)
                    && !is_fresh(as_map(orig)[stale@[x]@].stored_at_ms, as_map(orig)[stale@[x]@].ttl_ms, now),
                forall|q: int| 0 <= q < orig.len() && !is_fresh(#[trigger] orig[q].1.stored_at_ms, orig[q].1.ttl_ms, now)
                    ==> exists|x: int| 0 <= x < stale@.len() && stale@[x]@ == orig[q].0@,
                as_map(self.entries@).submap_of(as_map(orig)),
                forall|k: Seq<char>| #[trigger] as_map(self.entries@).contains_key(k) <==> (as_map(orig).contains_key(k)
                    && !(exists|x: int| 0 <= x < j && stale@[x]@ == k)),
            decreases stale@.len() - j,
        {
            let ghost before = self.entries@;
            let _ = remove_value(&mut self.entries, stale[j].as_str());
            proof {
                assert forall|k: Seq<char>| #[trigger] as_map(self.entries@).contains_key(k) <==> (as_map(orig).contains_key(k)
                    && !(exists|x: int| 0 <= x < j + 1 && stale@[x]@ == k)) by {
                    if exists|x: int| 0 <= x < j + 1 && stale@[x]@ == k {
                        let x = choose|x: int| 0 <= x < j + 1 && stale@[x]@ == k;
                        if x < j {
                        } else {
                            assert(k == stale@[j as int]@);
                        }
                    }
                }
            }
            j = j + 1;
        }
        proof {
            assert forall|k: Seq<char>| #[trigger] as_map(self.entries@).contains_key(k) <==> (as_map(orig).contains_key(k)
                && is_fresh(as_map(orig)[k].stored_at_ms, as_map(orig)[k].ttl_ms, now)) by {
                if as_map(orig).contains_key(k) {
                    let q = index_of_key(orig, k);
                    lemma_index_of_key(orig, q);
                    if !is_fresh(as_map(orig)[k].stored_at_ms, as_map(orig)[k].ttl_ms, now) {
                        assert(!is_fresh(orig[q].1.stored_at_ms, orig[q].1.ttl_ms, now));
                        let x = choose|x: int| 0 <= x < stale@.len() && stale@[x]@ == orig[q].0@;
                        assert(stale@[x]@ == k);
                    } else {
                        if exists|x: int| 0 <= x < stale@.len() && stale@[x]@ == k {
                            let x = choose|x: int| 0 <= x < stale@.len() && stale@[x]@ == k;
                            assert(!is_fresh(as_map(orig)[stale@[x]@].stored_at_ms, as_map(orig)[stale@[x]@].ttl_ms, now));
                        }
                    }
                }
            }
        }
    }

    /// Drops every entry.
    pub fn clear(&mut self)
        requires
            old(self).wf(),
        ensures
            final(self).wf(),
            final(self).size() == 0,
            final(self).entry_map() == Map::<Seq<char>, TimedEntry<V>>::empty(),
            final(self).spec_capacity() == old(self).spec_capacity(),
            final(self).spec_sweep() == old(self).spec_sweep(),
    {
        self.entries = Vec::new();
        assert(as_map(self.entries@) =~= Map::<Seq<char>, TimedEntry<V>>::empty());
    }

    /// The keys, in order.
    pub fn keys(&self) -> (r: Vec<String>)
        ensures
            r@.len() == self.size(),
            forall|k: Seq<char>| self.entry_map().contains_key(k) <==> string_views(r@).contains(k),
    {
        let mut out: Vec<String> = Vec::new();
        let mut i: usize = 0;
        while i < self.entries.len()
            invariant
                i <= self.entries@.len(),
                out@.map_values(|k: String| k@) == key_seq(self.entries@.subrange(0, i as int)),
            decreases self.entries@.len() - i,
        {
            let ghost before = out@;
            out.push(self.entries[i].0.clone());
            assert(out@.map_values(|k: String| k@) =~= before.map_values(|k: String| k@).push(self.entries@[i as int].0@));
            assert(key_seq(self.entries@.subrange(0, i + 1)) =~= key_seq(self.entries@.subrange(0, i as int)).push(self.entries@[i as int].0@));
            i = i + 1;
        }
        assert(self.entries@.subrange(0, i as int) =~= self.entries@);
        proof {
            let views = string_views(out@);
            assert(views =~= out@.map_values(|k: String| k@));
            assert forall|k: Seq<char>| self.entry_map().contains_key(k) <==> views.contains(k) by {
                if self.entry_map().contains_key(k) {
                    let q = index_of_key(self.entries@, k);
                    assert(views[q] == k);
                }
                if views.contains(k) {
                    let q = choose|q: int| 0 <= q < views.len() && views[q] == k;
                    assert(self.entries@[q].0@ == k);
                }
            }
        }
        out
    }
}

} // verus!
