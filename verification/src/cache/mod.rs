//! Caching: statistics, entries with lifetimes, a two-level cache of
//! serialized values, and a simple in-memory cache with hit counts.

pub mod manager;

use vstd::prelude::*;
use crate::assoc::{as_map, find_key, get_value, insert_value, keys_unique, lemma_index_of_key, remove_value};
use crate::clock::now_millis;
use crate::database::timed_cache::{TimedEntry, is_fresh};

verus! {

/// Request counters of the simple cache.
#[derive(Debug, Clone, Copy, PartialEq, Eq, Structural)]
pub struct CacheMetrics {
    pub hits: u64,
    pub misses: u64,
    pub total_requests: u64,
}

impl Default for CacheMetrics {
    /// All counters at zero.
    fn default() -> (r: CacheMetrics)
        ensures
            r == (CacheMetrics { hits: 0, misses: 0, total_requests: 0 }),
    {
        CacheMetrics { hits: 0, misses: 0, total_requests: 0 }
    }
}

/// The most entries the simple cache holds before a put drops one.
pub const SIMPLE_CACHE_ENTRY_LIMIT: usize = 1000;

/// A simple in-memory cache of serialized (JSON) values with lifetimes.
pub struct CacheManager {
    cache: Vec<(String, TimedEntry<String>)>,
    max_size: usize,
    metrics: CacheMetrics,
}

impl CacheManager {
    /// The entries by key.
    pub closed spec fn entries(&self) -> Map<Seq<char>, TimedEntry<String>> {
        as_map(self.cache@)
    }

    /// The number of entries.
    pub closed spec fn size(&self) -> nat {
        self.cache@.len()
    }

    /// The size limit in bytes.
    pub closed spec fn spec_max_size(&self) -> nat {
        self.max_size as nat
    }

    /// The counters.
    pub closed spec fn counters(&self) -> CacheMetrics {
        self.metrics
    }

    /// Each key is held once.
    pub closed spec fn wf(&self) -> bool {
        keys_unique(self.cache@)
    }

    /// An empty cache with a limit of `max_size_mb` mebibytes.
    pub fn new(max_size_mb: usize) -> (r: CacheManager)
        requires
            max_size_mb * 1048576 <= usize::MAX,
        ensures
            r.wf(),
            r.size() == 0,
            r.entries() == Map::<Seq<char>, TimedEntry<String>>::empty(),
            r.spec_max_size() == max_size_mb * 1048576,
            r.counters() == (CacheMetrics { hits: 0, misses: 0, total_requests: 0 }),
    {
        let r = CacheManager { cache: Vec::new(), max_size: max_size_mb * 1024 * 1024, metrics: CacheMetrics::default() };
        assert(as_map(r.cache@) =~= Map::<Seq<char>, TimedEntry<String>>::empty());
        r
    }

    /// What a lookup of `key` at `now` answers and does: a fresh entry is
    /// a hit and answered; an expired or absent one is dropped and a miss;
    /// every lookup is counted.
    pub open spec fn get_outcome(before: Self, after: Self, key: Seq<char>, now: u64, r: Option<String>) -> bool {
        &&& after.spec_max_size() == before.spec_max_size()
        &&& after.counters().total_requests == before.counters().total_requests + 1
        &&& ({
            let m = before.entries();
            if m.contains_key(key) && is_fresh(m[key].stored_at_ms, m[key].ttl_ms, now) {
                &&& r == Some(m[key].value)
                &&& after.entries() == m
                &&& after.counters().hits == before.counters().hits + 1
                &&& after.counters().misses == before.counters().misses
            } else {
                &&& r is None
                &&& after.entries() == m.remove(key)
                &&& after.counters().hits == before.counters().hits
                &&& after.counters().misses == before.counters().misses + 1
            }
        })
    }

    /// Looks `key` up at `now`. A fresh entry is a hit; an expired one is
    /// dropped and, like an absent one, a miss. Every lookup is counted.
    pub fn get_at(&mut self, key: &str, now: u64) -> (r: Option<String>)
        requires
            old(self).wf(),
            old(self).counters().total_requests < u64::MAX,
            old(self).counters().hits < u64::MAX,
            old(self).counters().misses < u64::MAX,
        ensures
            final(self).wf(),
            Self::get_outcome(*old(self), *final(self), key@, now, r),
    {
        let mut expired = false;
        match get_value(&self.cache, key) {
            Some(e) => {
                let age = if now >= e.stored_at_ms { now - e.stored_at_ms } else { 0 };
                if age < e.ttl_ms {
                    let v = e.value.clone();
                    self.metrics.hits = self.metrics.hits + 1;
                    self.metrics.total_requests = self.metrics.total_requests + 1;
                    return Some(v);
                }
                expired = true;
            },
            None => {},
        }
        if expired {
            let _ = remove_value(&mut self.cache, key);
        } else {
            assert(as_map(self.cache@) =~= as_map(self.cache@).remove(key@));
        }
        self.metrics.misses = self.metrics.misses + 1;
        self.metrics.total_requests = self.metrics.total_requests + 1;
        None
    }

    /// Looks `key` up now, as `get_at` does.
    pub fn get(&mut self, key: &str) -> (r: Option<String>)
        requires
            old(self).wf(),
            old(self).counters().total_requests < u64::MAX,
            old(self).counters().hits < u64::MAX,
            old(self).counters().misses < u64::MAX,
        ensures
            final(self).wf(),
            exists|now: u64| Self::get_outcome(*old(self), *final(self), key@, now, r),
    {
        let t = now_millis();
        let now: u64 = if t < 0 { 0 } else { t as u64 };
        let r = self.get_at(key, now);
        assert(Self::get_outcome(*old(self), *self, key@, now, r));
        r
    }

    /// Stores `data` under `key` at `now` for `ttl_ms`. When the cache
    /// already holds its limit of entries, one entry is dropped first.
    pub fn put_at(&mut self, key: String, data: String, ttl_ms: u64, now: u64)
        requires
            old(self).wf(),
        ensures
            final(self).wf(),
            final(self).spec_max_size() == old(self).spec_max_size(),
            final(self).counters() == old(self).counters(),
            ({
                let e = TimedEntry { value: data, stored_at_ms: now, ttl_ms };
                if old(self).size() >= SIMPLE_CACHE_ENTRY_LIMIT {
                    exists|gone: Seq<char>| old(self).entries().contains_key(gone)
                        && final(self).entries() == old(self).entries().remove(gone).insert(key@, e)
                } else {
                    final(self).entries() == old(self).entries().insert(key@, e)
                }
            }),
    {
        if self.cache.len() >= SIMPLE_CACHE_ENTRY_LIMIT {
            let ghost before = self.cache@;
            let first = self.cache[0].0.clone();
            proof {
                lemma_index_of_key(before, 0);
            }
            let _ = remove_value(&mut self.cache, first.as_str());
            let ghost kv = key@;
            let ghost e = TimedEntry { value: data, stored_at_ms: now, ttl_ms };
            insert_value(&mut self.cache, key, TimedEntry { value: data, stored_at_ms: now, ttl_ms });
            assert(first@ == before[0].0@);
            assert(as_map(before).contains_key(first@));
            assert(as_map(self.cache@) == as_map(before).remove(first@).insert(kv, e));
            assert(exists|gone: Seq<char>| as_map(before).contains_key(gone)
                && as_map(self.cache@) == as_map(before).remove(gone).insert(kv, e));
            assert(old(self).entries() == as_map(before));
            assert(old(self).size() >= SIMPLE_CACHE_ENTRY_LIMIT);
        } else {
            insert_value(&mut self.cache, key, TimedEntry { value: data, stored_at_ms: now, ttl_ms });
        }
    }

    /// Stores `data` under `key` now, as `put_at` does.
    pub fn put(&mut self, key: String, data: String, ttl_ms: u64)
        requires
            old(self).wf(),
        ensures
            final(self).wf(),
            final(self).counters() == old(self).counters(),
            final(self).entries().contains_key(key@),
            final(self).entries()[key@].value == data,
            final(self).entries()[key@].ttl_ms == ttl_ms,
    {
        let t = now_millis();
        let now: u64 = if t < 0 { 0 } else { t as u64 };
        self.put_at(key, data, ttl_ms, now)
    }

    /// The counters.
    pub fn get_metrics(&self) -> (r: CacheMetrics)
        ensures
            r == self.counters(),
    {
        self.metrics
    }

    /// Drops every entry.
    pub fn clear(&mut self)
        requires
            old(self).wf(),
        ensures
            final(self).wf(),
            final(self).size() == 0,
            final(self).entries() == Map::<Seq<char>, TimedEntry<String>>::empty(),
            final(self).counters() == old(self).counters(),
            final(self).spec_max_size() == old(self).spec_max_size(),
    {
        self.cache = Vec::new();
        assert(as_map(self.cache@) =~= Map::<Seq<char>, TimedEntry<String>>::empty());
    }
}

} // verus!
