//! Bookkeeping of the database performance layer: a cache of query results
//! with lifetimes, query metrics with a bounded list of slow queries, the
//! cache keys and the plans of the cached draw queries.
//!
//! Durations are in nanoseconds; cache instants in milliseconds on a
//! monotonic clock; wall-clock instants in milliseconds since the Unix
//! epoch.

use vstd::prelude::*;
use crate::database::query::{SqlParam, SqlParamView, param_view, text_param, int_param};
use crate::database::timed_cache::{TimedCache, TimedEntry, is_fresh};
use crate::text::{decimal_spec, signed_decimal_spec, i64_to_decimal, owned, push_str, u64_to_decimal, string_views};

verus! {

/// A cached query result and how often it was served.
#[derive(Debug)]
pub struct CachedQuery<D> {
    pub data: D,
    pub hit_count: u32,
}

/// A query that took longer than the slow-query limit.
#[derive(Debug)]
pub struct SlowQuery {
    pub query: String,
    pub duration_nanos: u64,
    pub timestamp: i64,
    pub parameters: Option<String>,
}

/// Query counters: queries run, their total duration, cache hits and
/// misses, and the last hundred slow queries, oldest first.
#[derive(Debug)]
pub struct PerformanceMetrics {
    pub query_count: u64,
    pub total_duration_nanos: u128,
    pub cache_hits: u64,
    pub cache_misses: u64,
    pub slow_queries: Vec<SlowQuery>,
}

/// A query slower than this many nanoseconds (100 ms) is recorded as slow.
pub const SLOW_QUERY_NANOS: u64 = 100_000_000;

/// The most slow queries kept.
pub const MAX_SLOW_QUERIES: usize = 100;

/// The most cached results kept before a sweep.
pub const QUERY_CACHE_CAPACITY: usize = 1000;

/// How many of the oldest results a sweep drops.
pub const QUERY_CACHE_SWEEP: usize = 100;

/// The cached query layer.
pub struct DatabasePerformanceManager<D> {
    query_cache: TimedCache<CachedQuery<D>>,
    metrics: PerformanceMetrics,
}

impl<D> DatabasePerformanceManager<D> {
    /// The cache.
    pub closed spec fn cache(&self) -> TimedCache<CachedQuery<D>> {
        self.query_cache
    }

    /// The counters.
    pub closed spec fn spec_metrics(&self) -> PerformanceMetrics {
        self.metrics
    }

    /// The cache is well formed with its capacity and sweep, and at most a
    /// hundred slow queries are kept.
    pub closed spec fn wf(&self) -> bool {
        &&& self.query_cache.wf()
        &&& self.query_cache.spec_capacity() == QUERY_CACHE_CAPACITY
        &&& self.query_cache.spec_sweep() == QUERY_CACHE_SWEEP
        &&& self.metrics.slow_queries@.len() <= MAX_SLOW_QUERIES
    }

    /// An empty cache and zero counters.
    pub fn new() -> (r: DatabasePerformanceManager<D>)
        ensures
            r.wf(),
            r.cache().size() == 0,
            r.spec_metrics().query_count == 0,
            r.spec_metrics().total_duration_nanos == 0,
            r.spec_metrics().cache_hits == 0,
            r.spec_metrics().cache_misses == 0,
            r.spec_metrics().slow_queries@.len() == 0,
    {
        DatabasePerformanceManager {
            query_cache: TimedCache::new(QUERY_CACHE_CAPACITY, QUERY_CACHE_SWEEP),
            metrics: PerformanceMetrics {
                query_count: 0,
                total_duration_nanos: 0,
                cache_hits: 0,
                cache_misses: 0,
                slow_queries: Vec::new(),
            },
        }
    }

    /// Looks for a fresh cached result of `key` at `now_ms`. A hit is
    /// counted, and so is the result's use; a miss changes nothing.
    pub fn lookup(&mut self, key: &str, now_ms: u64) -> (hit: bool)
        requires
            old(self).wf(),
            old(self).spec_metrics().cache_hits < u64::MAX,
        ensures
            final(self).wf(),
            hit == (old(self).cache().entry_map().contains_key(key@) && is_fresh(
                old(self).cache().entry_map()[key@].stored_at_ms,
                old(self).cache().entry_map()[key@].ttl_ms,
                now_ms,
            )),
            hit ==> final(self).spec_metrics() == (PerformanceMetrics {
                cache_hits: (old(self).spec_metrics().cache_hits + 1) as u64,
                ..old(self).spec_metrics()
            }),
            hit ==> final(self).cache().entry_map() == old(self).cache().entry_map().insert(key@, TimedEntry {
                value: CachedQuery {
                    hit_count: old(self).cache().entry_map()[key@].value.hit_count.wrapping_add(1),
                    ..old(self).cache().entry_map()[key@].value
                },
                ..old(self).cache().entry_map()[key@]
            }),
            hit ==> final(self).cache().size() == old(self).cache().size(),
            !hit ==> final(self).spec_metrics() == old(self).spec_metrics()
                && final(self).cache().entry_map() == old(self).cache().entry_map()
                && final(self).cache().size() == old(self).cache().size(),
    {
        let fresh = match self.query_cache.get_fresh(key, now_ms) {
            Some(_) => true,
            None => false,
        };
        if !fresh {
            return false;
        }
        self.metrics.cache_hits = self.metrics.cache_hits + 1;
        match self.query_cache.take(key) {
            Some(e) => {
                let value = CachedQuery { data: e.value.data, hit_count: e.value.hit_count.wrapping_add(1) };
                self.query_cache.put(owned(key), TimedEntry { value, stored_at_ms: e.stored_at_ms, ttl_ms: e.ttl_ms });
                proof {
                    assert(self.query_cache.entry_map() =~= old(self).cache().entry_map().insert(key@, TimedEntry {
                        value: CachedQuery {
                            hit_count: old(self).cache().entry_map()[key@].value.hit_count.wrapping_add(1),
                            ..old(self).cache().entry_map()[key@].value
                        },
                        ..old(self).cache().entry_map()[key@]
                    }));
                }
            },
            None => {},
        }
        true
    }
}

impl<D> DatabasePerformanceManager<D> {
    /// The counters can take one more query.
    pub open spec fn can_count(&self) -> bool {
        &&& self.spec_metrics().query_count < u64::MAX
        &&& self.spec_metrics().cache_misses < u64::MAX
        &&& self.spec_metrics().total_duration_nanos <= u128::MAX - u64::MAX
    }

    /// The cached result of `key`, fresh or not.
    pub fn cached_data(&self, key: &str) -> (r: Option<&D>)
        requires
            self.wf(),
        ensures
            match r {
                Some(d) => self.cache().entry_map().contains_key(key@) && *d == self.cache().entry_map()[key@].value.data,
                None => !self.cache().entry_map().contains_key(key@),
            },
    {
        match self.query_cache.get_entry(key) {
            Some(e) => Some(&e.value.data),
            None => None,
        }
    }

    /// Counts a query that missed the cache and took `duration_nanos`; a
    /// query slower than 100 ms joins the slow list, which keeps the last
    /// hundred.
    pub fn record_query(&mut self, key: &str, duration_nanos: u64, timestamp: i64)
        requires
            old(self).wf(),
            old(self).can_count(),
        ensures
            final(self).wf(),
            final(self).cache() == old(self).cache(),
            final(self).spec_metrics().query_count == old(self).spec_metrics().query_count + 1,
            final(self).spec_metrics().total_duration_nanos == old(self).spec_metrics().total_duration_nanos + duration_nanos,
            final(self).spec_metrics().cache_misses == old(self).spec_metrics().cache_misses + 1,
            final(self).spec_metrics().cache_hits == old(self).spec_metrics().cache_hits,
            ({
                let old_slow = old(self).spec_metrics().slow_queries@;
                let new_slow = final(self).spec_metrics().slow_queries@;
                if duration_nanos > SLOW_QUERY_NANOS {
                    let grown = old_slow.len() + 1;
                    let kept = if grown > MAX_SLOW_QUERIES { old_slow.drop_first() } else { old_slow };
                    &&& new_slow.len() == kept.len() + 1
                    &&& new_slow.drop_last() == kept
                    &&& new_slow.last().query@ == key@
                    &&& new_slow.last().duration_nanos == duration_nanos
                    &&& new_slow.last().timestamp == timestamp
                    &&& new_slow.last().parameters is None
                } else {
                    new_slow == old_slow
                }
            }),
    {
        self.metrics.query_count = self.metrics.query_count + 1;
        self.metrics.total_duration_nanos = self.metrics.total_duration_nanos + duration_nanos as u128;
        self.metrics.cache_misses = self.metrics.cache_misses + 1;
        if duration_nanos > SLOW_QUERY_NANOS {
            let ghost old_slow = self.metrics.slow_queries@;
            self.metrics.slow_queries.push(SlowQuery {
                query: owned(key),
                duration_nanos,
                timestamp,
                parameters: None,
            });
            if self.metrics.slow_queries.len() > MAX_SLOW_QUERIES {
                self.metrics.slow_queries.remove(0);
            }
            proof {
                let kept = if old_slow.len() + 1 > MAX_SLOW_QUERIES { old_slow.drop_first() } else { old_slow };
                assert(self.metrics.slow_queries@.drop_last() =~= kept);
            }
        }
    }

    /// Caches a successful result of `key` at `now_ms` for `ttl_ms`, served
    /// once; beyond a thousand results the hundred oldest are dropped.
    pub fn store_result(&mut self, key: String, data: D, ttl_ms: u64, now_ms: u64)
        requires
            old(self).wf(),
        ensures
            final(self).wf(),
            final(self).spec_metrics() == old(self).spec_metrics(),
            ({
                let stored = old(self).cache().entry_map().insert(key@, TimedEntry {
                    value: CachedQuery { data, hit_count: 1 },
                    stored_at_ms: now_ms,
                    ttl_ms,
                });
                let n = if old(self).cache().entry_map().contains_key(key@) { old(self).cache().size() } else { old(self).cache().size() + 1 };
                if n > QUERY_CACHE_CAPACITY {
                    &&& final(self).cache().size() == n - QUERY_CACHE_SWEEP
                    &&& final(self).cache().entry_map().submap_of(stored)
                    &&& forall|gone: Seq<char>, kept: Seq<char>|
                        #![trigger stored.contains_key(gone), final(self).cache().entry_map().contains_key(kept)]
                        stored.contains_key(gone) && !final(self).cache().entry_map().contains_key(gone)
                            && final(self).cache().entry_map().contains_key(kept)
                            ==> stored[gone].stored_at_ms <= stored[kept].stored_at_ms
                } else {
                    &&& final(self).cache().entry_map() == stored
                    &&& final(self).cache().size() == n
                }
            }),
    {
        self.query_cache.store(key, CachedQuery { data, hit_count: 1 }, ttl_ms, now_ms);
    }

    /// Drops the cached results that are stale at `now_ms`.
    pub fn cleanup_cache(&mut self, now_ms: u64)
        requires
            old(self).wf(),
        ensures
            final(self).wf(),
            final(self).spec_metrics() == old(self).spec_metrics(),
            forall|k: Seq<char>| #[trigger] final(self).cache().entry_map().contains_key(k) <==> (old(self).cache().entry_map().contains_key(k)
                && is_fresh(old(self).cache().entry_map()[k].stored_at_ms, old(self).cache().entry_map()[k].ttl_ms, now_ms)),
            final(self).cache().entry_map().submap_of(old(self).cache().entry_map()),
    {
        self.query_cache.retain_fresh(now_ms);
    }

    /// The number of cached results.
    pub fn cached_queries(&self) -> (r: usize)
        ensures
            r == self.cache().size(),
    {
        self.query_cache.len()
    }

    /// The counters.
    pub fn metrics(&self) -> (r: &PerformanceMetrics)
        ensures
            *r == self.spec_metrics(),
    {
        &self.metrics
    }

    /// The mean query duration in whole milliseconds (0 before any query).
    pub fn average_duration_ms(&self) -> (r: u128)
        ensures
            r == if self.spec_metrics().query_count > 0 {
                (self.spec_metrics().total_duration_nanos / 1_000_000) / self.spec_metrics().query_count as u128
            } else {
                0
            },
    {
        if self.metrics.query_count > 0 {
            (self.metrics.total_duration_nanos / 1_000_000) / self.metrics.query_count as u128
        } else {
            0
        }
    }

    /// Advice drawn from the counters: the mean query time above 100 ms,
    /// fewer than half the lookups hitting the cache, more than ten slow
    /// queries.
    pub fn get_performance_recommendations(&self) -> (r: Vec<String>)
        ensures
            string_views(r@) == recommendations_for(self.spec_metrics()),
    {
        let m = &self.metrics;
        let mut out: Vec<String> = Vec::new();
        let total_ms: u128 = m.total_duration_nanos / 1_000_000;
        if m.query_count > 0 && total_ms > 100 * m.query_count as u128 {
            out.push(owned("Consider optimizing slow queries with better indexes"));
        }
        let lookups: u128 = m.cache_hits as u128 + m.cache_misses as u128;
        if lookups == 0 || 2 * (m.cache_hits as u128) < lookups {
            out.push(owned("Increase cache TTL or implement more aggressive caching"));
        }
        if m.slow_queries.len() > 10 {
            out.push(owned("Review and optimize the most frequently used slow queries"));
        }
        assert(string_views(out@) =~= recommendations_for(self.spec_metrics()));
        out
    }
}

/// The advice for a set of counters, in order.
pub open spec fn recommendations_for(m: PerformanceMetrics) -> Seq<Seq<char>> {
    let total_ms = m.total_duration_nanos / 1_000_000;
    let lookups = m.cache_hits + m.cache_misses;
    (if m.query_count > 0 && total_ms > 100 * m.query_count {
        seq!["Consider optimizing slow queries with better indexes"@]
    } else {
        Seq::empty()
    }) + (if lookups == 0 || 2 * m.cache_hits < lookups {
        seq!["Increase cache TTL or implement more aggressive caching"@]
    } else {
        Seq::empty()
    }) + (if m.slow_queries@.len() > 10 {
        seq!["Review and optimize the most frequently used slow queries"@]
    } else {
        Seq::empty()
    })
}

/// The cache key of a page of draws.
pub open spec fn draws_cache_key(limit: i64, offset: i64, start: Seq<char>, end: Seq<char>, number: Seq<char>) -> Seq<char> {
    "super_lotto_draws:"@ + signed_decimal_spec(limit as int) + ":"@ + signed_decimal_spec(offset as int) + ":"@
        + start + ":"@ + end + ":"@ + number
}

/// The text of an optional string, empty when absent.
pub open spec fn text_or_empty(o: Option<String>) -> Seq<char> {
    match o {
        Some(s) => s@,
        None => Seq::empty(),
    }
}

/// The cache key of a page of draws; absent filters count as empty.
pub fn super_lotto_draws_cache_key(
    limit: i64,
    offset: i64,
    start_date: &Option<String>,
    end_date: &Option<String>,
    draw_number: &Option<String>,
) -> (r: String)
    ensures
        r@ == draws_cache_key(limit, offset, text_or_empty(*start_date), text_or_empty(*end_date), text_or_empty(*draw_number)),
{
    let mut key = owned("super_lotto_draws:");
    let a = i64_to_decimal(limit);
    push_str(&mut key, a.as_str());
    push_str(&mut key, ":");
    let b = i64_to_decimal(offset);
    push_str(&mut key, b.as_str());
    push_str(&mut key, ":");
    if let Some(s) = start_date {
        push_str(&mut key, s.as_str());
    }
    push_str(&mut key, ":");
    if let Some(s) = end_date {
        push_str(&mut key, s.as_str());
    }
    push_str(&mut key, ":");
    if let Some(s) = draw_number {
        push_str(&mut key, s.as_str());
    }
    key
}

/// The cache key of a frequency analysis over `days` days.
pub fn number_frequencies_cache_key(days: u32) -> (r: String)
    ensures
        r@ == "number_frequencies:"@ + decimal_spec(days as nat),
{
    let mut key = owned("number_frequencies:");
    let d = u64_to_decimal(days as u64);
    push_str(&mut key, d.as_str());
    key
}

/// How long a page of draws stays cached: five minutes.
pub const DRAWS_CACHE_TTL_MS: u64 = 300_000;

/// How long a frequency analysis stays cached: thirty minutes.
pub const FREQUENCIES_CACHE_TTL_MS: u64 = 1_800_000;

/// A piece of a query being built: SQL text, or a value bound at that place.
#[derive(Debug)]
pub enum SqlPiece {
    Text(String),
    Bind(SqlParam),
}

/// The view of a piece: text, or a bound value.
pub type SqlPieceView = (bool, Seq<char>, SqlParamView);

/// The view of a piece.
pub open spec fn piece_view(p: SqlPiece) -> SqlPieceView {
    match p {
        SqlPiece::Text(t) => (false, t@, text_param(Seq::empty())),
        SqlPiece::Bind(b) => (true, Seq::empty(), param_view(b)),
    }
}

/// The views of a list of pieces.
pub open spec fn pieces_view(s: Seq<SqlPiece>) -> Seq<SqlPieceView> {
    s.map_values(|p: SqlPiece| piece_view(p))
}

/// A text piece.
pub open spec fn text_piece(t: Seq<char>) -> SqlPieceView {
    (false, t, text_param(Seq::empty()))
}

/// A bound piece.
pub open spec fn bind_piece(p: SqlParamView) -> SqlPieceView {
    (true, Seq::empty(), p)
}

/// The filters of a draws query: a date range and a draw number matched
/// anywhere, each where given.
pub open spec fn draw_filters(start: Option<Seq<char>>, end: Option<Seq<char>>, number: Option<Seq<char>>) -> Seq<SqlPieceView> {
    (match start {
        Some(s) => seq![text_piece(" AND draw_date >= "@), bind_piece(text_param(s))],
        None => Seq::empty(),
    }) + (match end {
        Some(e) => seq![text_piece(" AND draw_date <= "@), bind_piece(text_param(e))],
        None => Seq::empty(),
    }) + (match number {
        Some(n) => seq![text_piece(" AND draw_number LIKE "@), bind_piece(text_param("%"@ + n + "%"@))],
        None => Seq::empty(),
    })
}

/// The query for a page of draws, newest first.
pub open spec fn draws_page_plan(limit: i64, offset: i64, start: Option<Seq<char>>, end: Option<Seq<char>>, number: Option<Seq<char>>) -> Seq<SqlPieceView> {
    seq![text_piece("SELECT id, draw_number, draw_date, front_zone, back_zone, front_sum, front_odd_count, front_even_count, has_consecutive, jackpot_amount, created_at FROM super_lotto_draws_optimized WHERE 1=1"@)]
        + draw_filters(start, end, number)
        + seq![text_piece(" ORDER BY draw_date DESC, draw_number DESC LIMIT "@), bind_piece(int_param(limit as int)),
            text_piece(" OFFSET "@), bind_piece(int_param(offset as int))]
}

/// The query counting the draws that match the filters.
pub open spec fn draws_count_plan(start: Option<Seq<char>>, end: Option<Seq<char>>, number: Option<Seq<char>>) -> Seq<SqlPieceView> {
    seq![text_piece("SELECT COUNT(*) as total FROM super_lotto_draws_optimized WHERE 1=1"@)]
        + draw_filters(start, end, number)
}

/// Appends a piece.
fn push_piece(pieces: &mut Vec<SqlPiece>, p: SqlPiece)
    ensures
        pieces_view(final(pieces)@) == pieces_view(old(pieces)@).push(piece_view(p)),
{
    let ghost before = pieces@;
    pieces.push(p);
    assert(pieces_view(pieces@) =~= pieces_view(before).push(piece_view(p)));
}

/// The view of an optional string.
pub open spec fn opt_seq(o: Option<String>) -> Option<Seq<char>> {
    match o {
        Some(s) => Some(s@),
        None => None,
    }
}

/// Appends the filters of a draws query.
fn push_draw_filters(pieces: &mut Vec<SqlPiece>, start: &Option<String>, end: &Option<String>, number: &Option<String>)
    ensures
        pieces_view(final(pieces)@) == pieces_view(old(pieces)@) + draw_filters(opt_seq(*start), opt_seq(*end), opt_seq(*number)),
{
    let ghost p0 = pieces_view(pieces@);
    if let Some(s) = start {
        push_piece(pieces, SqlPiece::Text(owned(" AND draw_date >= ")));
        push_piece(pieces, SqlPiece::Bind(SqlParam::Text(s.clone())));
    }
    if let Some(e) = end {
        push_piece(pieces, SqlPiece::Text(owned(" AND draw_date <= ")));
        push_piece(pieces, SqlPiece::Bind(SqlParam::Text(e.clone())));
    }
    if let Some(n) = number {
        push_piece(pieces, SqlPiece::Text(owned(" AND draw_number LIKE ")));
        let mut pattern = owned("%");
        push_str(&mut pattern, n.as_str());
        push_str(&mut pattern, "%");
        push_piece(pieces, SqlPiece::Bind(SqlParam::Text(pattern)));
    }
    assert(pieces_view(pieces@) =~= p0 + draw_filters(opt_seq(*start), opt_seq(*end), opt_seq(*number)));
}

/// The query for a page of draws.
pub fn draws_page_query(limit: i64, offset: i64, start: &Option<String>, end: &Option<String>, number: &Option<String>) -> (r: Vec<SqlPiece>)
    ensures
        pieces_view(r@) == draws_page_plan(limit, offset, opt_seq(*start), opt_seq(*end), opt_seq(*number)),
{
    let mut pieces: Vec<SqlPiece> = Vec::new();
    assert(pieces_view(pieces@) =~= Seq::<SqlPieceView>::empty());
    push_piece(&mut pieces, SqlPiece::Text(owned("SELECT id, draw_number, draw_date, front_zone, back_zone, front_sum, front_odd_count, front_even_count, has_consecutive, jackpot_amount, created_at FROM super_lotto_draws_optimized WHERE 1=1")));
    push_draw_filters(&mut pieces, start, end, number);
    push_piece(&mut pieces, SqlPiece::Text(owned(" ORDER BY draw_date DESC, draw_number DESC LIMIT ")));
    push_piece(&mut pieces, SqlPiece::Bind(SqlParam::Int(limit)));
    push_piece(&mut pieces, SqlPiece::Text(owned(" OFFSET ")));
    push_piece(&mut pieces, SqlPiece::Bind(SqlParam::Int(offset)));
    assert(pieces_view(pieces@) =~= draws_page_plan(limit, offset, opt_seq(*start), opt_seq(*end), opt_seq(*number)));
    pieces
}

/// The query counting the matching draws.
pub fn draws_count_query(start: &Option<String>, end: &Option<String>, number: &Option<String>) -> (r: Vec<SqlPiece>)
    ensures
        pieces_view(r@) == draws_count_plan(opt_seq(*start), opt_seq(*end), opt_seq(*number)),
{
    let mut pieces: Vec<SqlPiece> = Vec::new();
    assert(pieces_view(pieces@) =~= Seq::<SqlPieceView>::empty());
    push_piece(&mut pieces, SqlPiece::Text(owned("SELECT COUNT(*) as total FROM super_lotto_draws_optimized WHERE 1=1")));
    push_draw_filters(&mut pieces, start, end, number);
    assert(pieces_view(pieces@) =~= draws_count_plan(opt_seq(*start), opt_seq(*end), opt_seq(*number)));
    pieces
}

/// Whether draws remain after a page: the page ends before the total.
pub fn has_more(offset: i64, limit: i64, total: i64) -> (r: bool)
    requires
        i64::MIN <= offset + limit <= i64::MAX,
    ensures
        r == (offset + limit < total),
{
    offset + limit < total
}

} // verus!
