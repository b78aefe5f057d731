//! Cache statistics, settings, entries with lifetimes and the two-level
//! cache manager. Durations and instants are milliseconds; cached values
//! are held in their serialized (JSON) text.

use vstd::prelude::*;
use crate::assoc::{as_map, get_value, insert_value, keys_unique, remove_value};
use crate::clock::now_millis;
use crate::config::manager::{bump, bumped};
use crate::database::timed_cache::{TimedEntry, is_fresh};
use crate::error::types::AppError;
use crate::api::performance::{default_hash_hex, hash_hex, opt_seq};

verus! {

/// A value that can name the cache slot it belongs in.
pub trait CacheKey {
    /// The key of the slot.
    fn generate_key(&self) -> String;

    /// The key that `generate_key` gives, hashed with `DefaultHasher` and
    /// written in lower-case hexadecimal.
    fn hash(&self) -> (r: String)
        ensures
            exists|key: String| call_ensures(Self::generate_key, (self,), key) && r@ == default_hash_hex(key@),
    {
        let key = self.generate_key();
        hash_hex(key.as_str())
    }
}

/// Cache statistics.
#[derive(Debug, Clone)]
pub struct CacheStats {
    pub hits: u64,
    pub misses: u64,
    pub sets: u64,
    pub evictions: u64,
    pub total_size_bytes: u64,
    pub entry_count: u64,
}

impl CacheStats {
    /// A field-by-field copy.
    pub fn copy(&self) -> (r: CacheStats)
        ensures
            r == *self,
    {
        CacheStats {
            hits: self.hits,
            misses: self.misses,
            sets: self.sets,
            evictions: self.evictions,
            total_size_bytes: self.total_size_bytes,
            entry_count: self.entry_count,
        }
    }
}

impl Default for CacheStats {
    /// All counters at zero.
    fn default() -> (r: CacheStats)
        ensures
            r == (CacheStats { hits: 0, misses: 0, sets: 0, evictions: 0, total_size_bytes: 0, entry_count: 0 }),
    {
        CacheStats { hits: 0, misses: 0, sets: 0, evictions: 0, total_size_bytes: 0, entry_count: 0 }
    }
}

/// How entries leave the cache.
#[derive(Debug, Clone, Copy, PartialEq, Eq, Structural)]
pub enum InvalidationStrategy {
    /// Expiry after a lifetime, in milliseconds.
    TimeToLive(u64),
    LeastRecentlyUsed,
    LeastFrequentlyUsed,
    Manual,
}

/// Cache settings.
#[derive(Debug, Clone, Copy, PartialEq, Eq, Structural)]
pub struct CacheConfig {
    pub max_size_bytes: u64,
    pub max_entries: u64,
    pub default_ttl_ms: u64,
    pub cleanup_interval_ms: u64,
    pub invalidation_strategy: InvalidationStrategy,
}

impl Default for CacheConfig {
    /// 100 MiB, ten thousand entries, an hour's lifetime, cleanup every
    /// five minutes, expiry after an hour.
    fn default() -> (r: CacheConfig)
        ensures
            r == (CacheConfig {
                max_size_bytes: 104857600,
                max_entries: 10000,
                default_ttl_ms: 3600000,
                cleanup_interval_ms: 300000,
                invalidation_strategy: InvalidationStrategy::TimeToLive(3600000),
            }),
    {
        CacheConfig {
            max_size_bytes: 100 * 1024 * 1024,
            max_entries: 10000,
            default_ttl_ms: 3600 * 1000,
            cleanup_interval_ms: 300 * 1000,
            invalidation_strategy: InvalidationStrategy::TimeToLive(3600 * 1000),
        }
    }
}

/// The clock in milliseconds since the Unix epoch; an instant before the
/// epoch reads as zero.
fn clock_ms() -> u64 {
    let t = now_millis();
    if t < 0 { 0 } else { t as u64 }
}

/// The time from `from` to `to`, none when the clock reads earlier.
pub open spec fn elapsed_ms(from: u64, to: u64) -> u64 {
    if to >= from { (to - from) as u64 } else { 0 }
}

/// A cached value with its bookkeeping.
#[derive(Debug, Clone)]
pub struct CacheEntry<T> {
    pub value: T,
    pub created_at_ms: u64,
    pub last_accessed_ms: u64,
    pub ttl_ms: Option<u64>,
    pub access_count: u64,
    pub size_bytes: u64,
}

impl<T> CacheEntry<T> {
    /// Whether the entry has outlived its lifetime at `now`: more time
    /// than the lifetime has passed since it was made. An entry without a
    /// lifetime never expires.
    pub open spec fn expired_at(&self, now: u64) -> bool {
        match self.ttl_ms {
            Some(t) => elapsed_ms(self.created_at_ms, now) > t,
            None => false,
        }
    }

    /// The entry after an access at `now`.
    pub open spec fn touched(self, now: u64) -> CacheEntry<T> {
        CacheEntry { last_accessed_ms: now, access_count: (self.access_count + 1) as u64, ..self }
    }

    /// A new entry made at `now`, not yet accessed.
    pub fn new_at(value: T, ttl_ms: Option<u64>, size_bytes: u64, now: u64) -> (r: CacheEntry<T>)
        ensures
            r == (CacheEntry { value, created_at_ms: now, last_accessed_ms: now, ttl_ms, access_count: 0, size_bytes }),
    {
        CacheEntry { value, created_at_ms: now, last_accessed_ms: now, ttl_ms, access_count: 0, size_bytes }
    }

    /// A new entry made now, not yet accessed.
    pub fn new(value: T, ttl_ms: Option<u64>, size_bytes: u64) -> (r: CacheEntry<T>)
        ensures
            r.value == value,
            r.ttl_ms == ttl_ms,
            r.size_bytes == size_bytes,
            r.access_count == 0,
            r.last_accessed_ms == r.created_at_ms,
    {
        let now = clock_ms();
        Self::new_at(value, ttl_ms, size_bytes, now)
    }

    /// Whether the entry has expired at `now`.
    pub fn is_expired_at(&self, now: u64) -> (r: bool)
        ensures
            r == self.expired_at(now),
    {
        match self.ttl_ms {
            Some(t) => {
                let age = if now >= self.created_at_ms { now - self.created_at_ms } else { 0 };
                age > t
            },
            None => false,
        }
    }

    /// Whether the entry has expired by now; one without a lifetime never
    /// has.
    pub fn is_expired(&self) -> (r: bool)
        ensures
            self.ttl_ms is None ==> !r,
            exists|now: u64| r == self.expired_at(now),
    {
        let now = clock_ms();
        self.is_expired_at(now)
    }

    /// Records an access at `now`.
    pub fn touch_at(&mut self, now: u64)
        requires
            old(self).access_count < u64::MAX,
        ensures
            *final(self) == (CacheEntry { last_accessed_ms: now, access_count: (old(self).access_count + 1) as u64, ..*old(self) }),
    {
        self.last_accessed_ms = now;
        self.access_count = self.access_count + 1;
    }

    /// Records an access now. The access time never moves back: where the
    /// wall clock reads earlier than the last access, that time is kept,
    /// as with a monotonic clock.
    pub fn touch(&mut self)
        requires
            old(self).access_count < u64::MAX,
        ensures
            exists|now: u64| now >= old(self).last_accessed_ms && *final(self) == #[trigger] old(self).touched(now),
    {
        let read = clock_ms();
        let now = if read >= self.last_accessed_ms { read } else { self.last_accessed_ms };
        let ghost before = *self;
        self.touch_at(now);
        assert(*self == before.touched(now));
    }
}

/// How long the first level keeps a value: five minutes.
pub const L1_TTL_MS: u64 = 300000;

/// The value of `key` in a level if its entry is still fresh at `now`.
pub open spec fn level_value(level: Map<Seq<char>, TimedEntry<String>>, key: Seq<char>, now: u64) -> Option<Seq<char>> {
    if level.contains_key(key) && is_fresh(level[key].stored_at_ms, level[key].ttl_ms, now) {
        Some(level[key].value@)
    } else {
        None
    }
}

/// A two-level cache of serialized values: a short-lived first level in
/// front of a longer-lived second level, with hit and miss counts.
pub struct MultiLevelCacheManager {
    l1_cache: Vec<(String, TimedEntry<String>)>,
    l2_cache: Vec<(String, TimedEntry<String>)>,
    config: CacheConfig,
    stats: CacheStats,
}

/// What a two-level lookup of `key` at `now` finds: the first level's
/// fresh value, else the second level's.
pub open spec fn lookup(l1: Map<Seq<char>, TimedEntry<String>>, l2: Map<Seq<char>, TimedEntry<String>>, key: Seq<char>, now: u64) -> Option<Seq<char>> {
    match level_value(l1, key, now) {
        Some(v) => Some(v),
        None => level_value(l2, key, now),
    }
}

impl MultiLevelCacheManager {
    /// The first level's entries by key.
    pub closed spec fn l1(&self) -> Map<Seq<char>, TimedEntry<String>> {
        as_map(self.l1_cache@)
    }

    /// The second level's entries by key.
    pub closed spec fn l2(&self) -> Map<Seq<char>, TimedEntry<String>> {
        as_map(self.l2_cache@)
    }

    /// The counters.
    pub closed spec fn counters(&self) -> CacheStats {
        self.stats
    }

    /// The settings.
    pub closed spec fn settings(&self) -> CacheConfig {
        self.config
    }

    /// Each level holds a key once.
    pub closed spec fn wf(&self) -> bool {
        keys_unique(self.l1_cache@) && keys_unique(self.l2_cache@)
    }

    /// Two empty levels and zero counters.
    pub fn new(config: CacheConfig) -> (r: Result<MultiLevelCacheManager, AppError>)
        ensures
            match r {
                Ok(m) => m.wf() && m.l1() == Map::<Seq<char>, TimedEntry<String>>::empty()
                    && m.l2() == Map::<Seq<char>, TimedEntry<String>>::empty()
                    && m.settings() == config
                    && m.counters() == (CacheStats { hits: 0, misses: 0, sets: 0, evictions: 0, total_size_bytes: 0, entry_count: 0 }),
                Err(_) => false,
            },
    {
        let m = MultiLevelCacheManager { l1_cache: Vec::new(), l2_cache: Vec::new(), config, stats: CacheStats::default() };
        assert(as_map(m.l1_cache@) =~= Map::<Seq<char>, TimedEntry<String>>::empty());
        assert(as_map(m.l2_cache@) =~= Map::<Seq<char>, TimedEntry<String>>::empty());
        Ok(m)
    }

    /// What a lookup of `key` at `now` answers and does: the value of the
    /// first level holding it fresh, or nothing; found in the second level
    /// only, it is copied to the first for five minutes (counted as a
    /// miss); found in the first, a hit is counted; the second level and
    /// the settings stay.
    pub open spec fn get_outcome(before: Self, after: Self, key: Seq<char>, now: u64, r: Result<Option<String>, AppError>) -> bool {
        &&& after.l2() == before.l2()
        &&& after.settings() == before.settings()
        &&& match r {
            Ok(v) => opt_seq(v) == lookup(before.l1(), before.l2(), key, now),
            Err(_) => false,
        }
        &&& match (level_value(before.l1(), key, now), level_value(before.l2(), key, now)) {
            (Some(_), _) => after.l1() == before.l1()
                && after.counters() == (CacheStats { hits: bump(before.counters().hits), ..before.counters() }),
            (None, Some(_)) => after.l1() == before.l1().insert(key, TimedEntry { value: before.l2()[key].value, stored_at_ms: now, ttl_ms: L1_TTL_MS })
                && after.counters() == (CacheStats { misses: bump(before.counters().misses), ..before.counters() }),
            (None, None) => after.l1() == before.l1() && after.counters() == before.counters(),
        }
    }

    /// Looks `key` up at `now`: in the first level (a hit), else in the
    /// second, whose value is then copied into the first level for five
    /// minutes (counted as a miss). Not found anywhere, nothing is
    /// counted.
    pub fn get_multi_level_at(&mut self, key: &str, now: u64) -> (r: Result<Option<String>, AppError>)
        requires
            old(self).wf(),
        ensures
            final(self).wf(),
            Self::get_outcome(*old(self), *final(self), key@, now, r),
    {
        if let Some(e) = get_value(&self.l1_cache, key) {
            let age = if now >= e.stored_at_ms { now - e.stored_at_ms } else { 0 };
            if age < e.ttl_ms {
                let v = e.value.clone();
                self.stats.hits = bumped(self.stats.hits);
                return Ok(Some(v));
            }
        }
        let found: Option<String> = match get_value(&self.l2_cache, key) {
            Some(e) => {
                let age = if now >= e.stored_at_ms { now - e.stored_at_ms } else { 0 };
                if age < e.ttl_ms { Some(e.value.clone()) } else { None }
            },
            None => None,
        };
        match found {
            Some(v) => {
                let copy = v.clone();
                insert_value(&mut self.l1_cache, key.to_string(), TimedEntry { value: copy, stored_at_ms: now, ttl_ms: L1_TTL_MS });
                self.stats.misses = bumped(self.stats.misses);
                Ok(Some(v))
            },
            None => Ok(None),
        }
    }

    /// Looks `key` up now, as `get_multi_level_at` does.
    pub fn get_multi_level(&mut self, key: &str) -> (r: Result<Option<String>, AppError>)
        requires
            old(self).wf(),
        ensures
            final(self).wf(),
            r is Ok,
            exists|now: u64| Self::get_outcome(*old(self), *final(self), key@, now, r),
    {
        let now = clock_ms();
        let r = self.get_multi_level_at(key, now);
        assert(Self::get_outcome(*old(self), *self, key@, now, r));
        r
    }

    /// Stores `value` under `key` at `now` in both levels: for `ttl_ms`
    /// in the second level, and for at most five minutes in the first.
    pub fn put_at(&mut self, key: String, value: String, ttl_ms: u64, now: u64) -> (r: Result<(), AppError>)
        requires
            old(self).wf(),
        ensures
            final(self).wf(),
            r is Ok,
            final(self).settings() == old(self).settings(),
            final(self).l1() == old(self).l1().insert(key@, TimedEntry {
                value,
                stored_at_ms: now,
                ttl_ms: if ttl_ms < L1_TTL_MS { ttl_ms } else { L1_TTL_MS },
            }),
            final(self).l2() == old(self).l2().insert(key@, TimedEntry { value, stored_at_ms: now, ttl_ms }),
            final(self).counters() == (CacheStats { sets: bump(old(self).counters().sets), ..old(self).counters() }),
    {
        let l1_ttl = if ttl_ms < L1_TTL_MS { ttl_ms } else { L1_TTL_MS };
        let copy = value.clone();
        let k1 = key.clone();
        insert_value(&mut self.l1_cache, k1, TimedEntry { value: copy, stored_at_ms: now, ttl_ms: l1_ttl });
        insert_value(&mut self.l2_cache, key, TimedEntry { value, stored_at_ms: now, ttl_ms });
        self.stats.sets = bumped(self.stats.sets);
        Ok(())
    }

    /// Stores `value` under `key` now in both levels, as `put_at` does.
    pub fn put(&mut self, key: String, value: String, ttl_ms: u64) -> (r: Result<(), AppError>)
        requires
            old(self).wf(),
        ensures
            final(self).wf(),
            r is Ok,
            final(self).l1().contains_key(key@) && final(self).l1()[key@].value == value,
            final(self).l2().contains_key(key@) && final(self).l2()[key@].value == value,
            final(self).l2()[key@].ttl_ms == ttl_ms,
            final(self).counters() == (CacheStats { sets: bump(old(self).counters().sets), ..old(self).counters() }),
    {
        let now = clock_ms();
        self.put_at(key, value, ttl_ms, now)
    }

    /// Stores `value` under `key` at `now`: for five minutes in the first
    /// level and for the configured lifetime in the second.
    pub fn put_multi_level_at(&mut self, key: String, value: String, now: u64) -> (r: Result<(), AppError>)
        requires
            old(self).wf(),
        ensures
            final(self).wf(),
            r is Ok,
            final(self).settings() == old(self).settings(),
            final(self).l1() == old(self).l1().insert(key@, TimedEntry { value, stored_at_ms: now, ttl_ms: L1_TTL_MS }),
            final(self).l2() == old(self).l2().insert(key@, TimedEntry { value, stored_at_ms: now, ttl_ms: old(self).settings().default_ttl_ms }),
            final(self).counters() == (CacheStats { sets: bump(old(self).counters().sets), ..old(self).counters() }),
    {
        let copy = value.clone();
        let k1 = key.clone();
        let ttl = self.config.default_ttl_ms;
        insert_value(&mut self.l1_cache, k1, TimedEntry { value: copy, stored_at_ms: now, ttl_ms: L1_TTL_MS });
        insert_value(&mut self.l2_cache, key, TimedEntry { value, stored_at_ms: now, ttl_ms: ttl });
        self.stats.sets = bumped(self.stats.sets);
        Ok(())
    }

    /// Stores `value` under `key` now, as `put_multi_level_at` does.
    pub fn put_multi_level(&mut self, key: String, value: String) -> (r: Result<(), AppError>)
        requires
            old(self).wf(),
        ensures
            final(self).wf(),
            r is Ok,
            final(self).l1().contains_key(key@) && final(self).l1()[key@].value == value,
            final(self).l2().contains_key(key@) && final(self).l2()[key@].value == value,
            final(self).counters() == (CacheStats { sets: bump(old(self).counters().sets), ..old(self).counters() }),
    {
        let now = clock_ms();
        self.put_multi_level_at(key, value, now)
    }

    /// Removes `key` from both levels; whether either held it.
    pub fn remove(&mut self, key: &str) -> (r: Result<bool, AppError>)
        requires
            old(self).wf(),
        ensures
            final(self).wf(),
            final(self).settings() == old(self).settings(),
            final(self).counters() == old(self).counters(),
            final(self).l1() == old(self).l1().remove(key@),
            final(self).l2() == old(self).l2().remove(key@),
            r == Ok::<bool, AppError>(old(self).l1().contains_key(key@) || old(self).l2().contains_key(key@)),
    {
        let a = remove_value(&mut self.l1_cache, key);
        let b = remove_value(&mut self.l2_cache, key);
        Ok(a.is_some() || b.is_some())
    }

    /// Empties both levels.
    pub fn clear(&mut self) -> (r: Result<(), AppError>)
        requires
            old(self).wf(),
        ensures
            final(self).wf(),
            r is Ok,
            final(self).settings() == old(self).settings(),
            final(self).counters() == old(self).counters(),
            final(self).l1() == Map::<Seq<char>, TimedEntry<String>>::empty(),
            final(self).l2() == Map::<Seq<char>, TimedEntry<String>>::empty(),
    {
        self.l1_cache = Vec::new();
        self.l2_cache = Vec::new();
        assert(as_map(self.l1_cache@) =~= Map::<Seq<char>, TimedEntry<String>>::empty());
        assert(as_map(self.l2_cache@) =~= Map::<Seq<char>, TimedEntry<String>>::empty());
        Ok(())
    }

    /// A copy of the counters.
    pub fn stats(&self) -> (r: CacheStats)
        ensures
            r == self.counters(),
    {
        self.stats.copy()
    }

    /// Whether either level holds a fresh value for `key` at `now`.
    pub fn contains_at(&self, key: &str, now: u64) -> (r: Result<bool, AppError>)
        requires
            self.wf(),
        ensures
            r == Ok::<bool, AppError>(lookup(self.l1(), self.l2(), key@, now) is Some),
    {
        let in_l1 = match get_value(&self.l1_cache, key) {
            Some(e) => {
                let age = if now >= e.stored_at_ms { now - e.stored_at_ms } else { 0 };
                age < e.ttl_ms
            },
            None => false,
        };
        if in_l1 {
            return Ok(true);
        }
        let in_l2 = match get_value(&self.l2_cache, key) {
            Some(e) => {
                let age = if now >= e.stored_at_ms { now - e.stored_at_ms } else { 0 };
                age < e.ttl_ms
            },
            None => false,
        };
        Ok(in_l2)
    }

    /// Whether either level holds a fresh value for `key` now.
    pub fn contains(&self, key: &str) -> (r: Result<bool, AppError>)
        requires
            self.wf(),
        ensures
            r is Ok,
            exists|now: u64| r == Ok::<bool, AppError>(#[trigger] lookup(self.l1(), self.l2(), key@, now) is Some),
    {
        let now = clock_ms();
        let r = self.contains_at(key, now);
        assert(r == Ok::<bool, AppError>(lookup(self.l1(), self.l2(), key@, now) is Some));
        r
    }
}

/// A value stored with a lifetime is found again at the instant it was
/// stored, whichever level answers.
pub proof fn lemma_get_after_put(l1: Map<Seq<char>, TimedEntry<String>>, l2: Map<Seq<char>, TimedEntry<String>>, key: Seq<char>, value: String, ttl_ms: u64, now: u64)
    requires
        ttl_ms > 0,
    ensures
        lookup(
            l1.insert(key, TimedEntry { value, stored_at_ms: now, ttl_ms: if ttl_ms < L1_TTL_MS { ttl_ms } else { L1_TTL_MS } }),
            l2.insert(key, TimedEntry { value, stored_at_ms: now, ttl_ms }),
            key,
            now,
        ) == Some(value@),
{
}

/// After a removal, neither level answers for the key.
pub proof fn lemma_absent_after_remove(l1: Map<Seq<char>, TimedEntry<String>>, l2: Map<Seq<char>, TimedEntry<String>>, key: Seq<char>, now: u64)
    ensures
        lookup(l1.remove(key), l2.remove(key), key, now) is None,
{
}

/// With a lifetime above zero, a lookup at `now` answers for every key
/// unless the loader failed for it.
pub open spec fn warmed<F: Fn(&str) -> Result<String, AppError>>(
    l1: Map<Seq<char>, TimedEntry<String>>,
    l2: Map<Seq<char>, TimedEntry<String>>,
    keys: Seq<String>,
    loader: F,
    ttl_ms: u64,
    now: u64,
) -> bool {
    forall|i: int| 0 <= i < keys.len() && ttl_ms > 0 ==>
        (lookup(l1, l2, #[trigger] keys[i]@, now) is Some
            || exists|k: &str, e: AppError| k@ == keys[i]@ && loader.ensures((k,), Err(e)))
}

/// Fills a cache ahead of use.
pub struct CacheWarmer;

impl CacheWarmer {
    /// For each key that the cache does not answer at `now`, loads the
    /// value with `loader` and stores it for `ttl_ms`; a key whose load
    /// fails is skipped. Afterwards, with a lifetime above zero, every key
    /// is answered at `now` unless its load failed.
    pub fn warm_common_data_at<F: Fn(&str) -> Result<String, AppError>>(
        cache: &mut MultiLevelCacheManager,
        keys: Vec<String>,
        loader: F,
        ttl_ms: u64,
        now: u64,
    ) -> (r: Result<(), AppError>)
        requires
            old(cache).wf(),
            forall|k: &str| loader.requires((k,)),
        ensures
            final(cache).wf(),
            r is Ok,
            final(cache).settings() == old(cache).settings(),
            warmed(final(cache).l1(), final(cache).l2(), keys@, loader, ttl_ms, now),
    {
        let mut i: usize = 0;
        while i < keys.len()
            invariant
                i <= keys@.len(),
                cache.wf(),
                cache.settings() == old(cache).settings(),
                forall|k: &str| loader.requires((k,)),
                forall|j: int| 0 <= j < i && ttl_ms > 0 ==>
                    (lookup(cache.l1(), cache.l2(), #[trigger] keys@[j]@, now) is Some
                        || exists|k: &str, e: AppError| k@ == keys@[j]@ && loader.ensures((k,), Err(e))),
            decreases keys@.len() - i,
        {
            let key = keys[i].as_str();
            let present = cache.contains_at(key, now);
            if let Ok(false) = present {
                let loaded = loader(key);
                match loaded {
                    Ok(v) => {
                        let ghost l1 = cache.l1();
                        let ghost l2 = cache.l2();
                        let _ = cache.put_at(key.to_string(), v, ttl_ms, now);
                        proof {
                            if ttl_ms > 0 {
                                lemma_get_after_put(l1, l2, keys@[i as int]@, v, ttl_ms, now);
                            }
                            assert forall|j: int| 0 <= j < i && ttl_ms > 0 implies
                                (lookup(cache.l1(), cache.l2(), #[trigger] keys@[j]@, now) is Some
                                    || exists|k: &str, e: AppError| k@ == keys@[j]@ && loader.ensures((k,), Err(e))) by {
                                if lookup(l1, l2, keys@[j]@, now) is Some && keys@[j]@ != keys@[i as int]@ {
                                    assert(cache.l1().contains_key(keys@[j]@) == l1.contains_key(keys@[j]@));
                                }
                            }
                        }
                    },
                    Err(e) => {
                        assert(loader.ensures((key,), Err(e)));
                    },
                }
            }
            i = i + 1;
        }
        Ok(())
    }

    /// Warms the cache now, as `warm_common_data_at` does.
    pub fn warm_common_data<F: Fn(&str) -> Result<String, AppError>>(
        cache: &mut MultiLevelCacheManager,
        keys: Vec<String>,
        loader: F,
        ttl_ms: u64,
    ) -> (r: Result<(), AppError>)
        requires
            old(cache).wf(),
            forall|k: &str| loader.requires((k,)),
        ensures
            final(cache).wf(),
            r is Ok,
            exists|now: u64| #[trigger] warmed(final(cache).l1(), final(cache).l2(), keys@, loader, ttl_ms, now),
    {
        let now = clock_ms();
        let ghost ks = keys@;
        let r = Self::warm_common_data_at(cache, keys, loader, ttl_ms, now);
        assert(warmed(cache.l1(), cache.l2(), ks, loader, ttl_ms, now));
        r
    }

    /// Preloads the cache now, as `bulk_preload_at` does.
    pub fn bulk_preload<F: FnOnce() -> Result<Vec<(String, String)>, AppError>>(
        cache: &mut MultiLevelCacheManager,
        loader: F,
        ttl_ms: u64,
    ) -> (r: Result<(), AppError>)
        requires
            old(cache).wf(),
            loader.requires(()),
        ensures
            final(cache).wf(),
            match r {
                Ok(()) => exists|items: Vec<(String, String)>| loader.ensures((), Ok(items))
                    && forall|j: int| 0 <= j < items@.len() ==> #[trigger] final(cache).l2().contains_key(items@[j].0@),
                Err(e) => loader.ensures((), Err(e)) && final(cache).l1() == old(cache).l1()
                    && final(cache).l2() == old(cache).l2(),
            },
    {
        let now = clock_ms();
        Self::bulk_preload_at(cache, loader, ttl_ms, now)
    }

    /// Stores every pair that `loader` gives, each for `ttl_ms`, at `now`.
    /// When the loader fails, its error is returned and nothing is stored.
    pub fn bulk_preload_at<F: FnOnce() -> Result<Vec<(String, String)>, AppError>>(
        cache: &mut MultiLevelCacheManager,
        loader: F,
        ttl_ms: u64,
        now: u64,
    ) -> (r: Result<(), AppError>)
        requires
            old(cache).wf(),
            loader.requires(()),
        ensures
            final(cache).wf(),
            final(cache).settings() == old(cache).settings(),
            match r {
                Ok(()) => exists|items: Vec<(String, String)>| loader.ensures((), Ok(items))
                    && forall|j: int| 0 <= j < items@.len() ==> #[trigger] final(cache).l2().contains_key(items@[j].0@),
                Err(e) => loader.ensures((), Err(e)) && final(cache).l1() == old(cache).l1()
                    && final(cache).l2() == old(cache).l2() && final(cache).counters() == old(cache).counters(),
            },
    {
        let loaded = loader();
        let items = match loaded {
            Ok(items) => items,
            Err(e) => return Err(e),
        };
        let ghost all = items@;
        let mut i: usize = 0;
        while i < items.len()
            invariant
                i <= items@.len(),
                items@ == all,
                loader.ensures((), Ok(items)),
                cache.wf(),
                cache.settings() == old(cache).settings(),
                forall|j: int| 0 <= j < i ==> #[trigger] cache.l2().contains_key(items@[j].0@),
            decreases items@.len() - i,
        {
            let key = items[i].0.clone();
            let value = items[i].1.clone();
            let _ = cache.put_at(key, value, ttl_ms, now);
            i = i + 1;
        }
        Ok(())
    }
}

} // verus!
