//! Request handling decisions of the command layer: which database call a
//! command makes, how a batch is cut into rounds and summed up, the cache
//! key of a request, the response cache and the request metrics.
//!
//! Durations are in nanoseconds; cache instants in milliseconds on a
//! monotonic clock; wall-clock instants in milliseconds since the Unix
//! epoch.

use vstd::prelude::*;
use crate::database::timed_cache::{TimedCache, TimedEntry, is_fresh};
use crate::text::{hex_spec, owned, push_str, string_views, u64_to_hex};
use crate::patterns::{regex_error, regex_error_text, regex_match, regex_match_result};

verus! {

/// What a command runs with, as read from its JSON parameters: each field
/// that is present with the right JSON type.
#[derive(Debug)]
pub struct CommandParams {
    pub limit: Option<i64>,
    pub offset: Option<i64>,
    pub start_date: Option<String>,
    pub end_date: Option<String>,
    pub draw_number: Option<String>,
    pub days: Option<u64>,
}

/// The database call a command makes.
#[derive(Debug)]
pub enum CommandPlan {
    SuperLottoDraws {
        limit: i64,
        offset: i64,
        start_date: Option<String>,
        end_date: Option<String>,
        draw_number: Option<String>,
    },
    HotNumbers { days: u32 },
}

/// The view of an optional string.
pub open spec fn opt_seq(o: Option<String>) -> Option<Seq<char>> {
    match o {
        Some(s) => Some(s@),
        None => None,
    }
}

/// A copy of an optional string.
fn copy_opt(o: &Option<String>) -> (r: Option<String>)
    ensures
        opt_seq(r) == opt_seq(*o),
{
    match o {
        Some(s) => Some(s.clone()),
        None => None,
    }
}

/// Decides what a command runs: a page of draws (100 from the start by
/// default) or a frequency analysis (over 90 days by default, the count
/// cut to 32 bits); any other command is refused with
/// `Unknown command: <command>`.
pub fn plan_command(command: &str, params: &CommandParams) -> (r: Result<CommandPlan, String>)
    ensures
        command@ == "get_super_lotto_draws"@ ==> (r matches Ok(CommandPlan::SuperLottoDraws { limit, offset, start_date, end_date, draw_number })
            && limit == (match params.limit { Some(l) => l, None => 100 })
            && offset == (match params.offset { Some(o) => o, None => 0 })
            && opt_seq(start_date) == opt_seq(params.start_date)
            && opt_seq(end_date) == opt_seq(params.end_date)
            && opt_seq(draw_number) == opt_seq(params.draw_number)),
        command@ == "analyze_hot_numbers"@ ==> (r matches Ok(CommandPlan::HotNumbers { days })
            && days == (match params.days { Some(d) => #[verifier::truncate] (d as u32), None => 90u32 })),
        command@ != "get_super_lotto_draws"@ && command@ != "analyze_hot_numbers"@ ==> (r matches Err(m)
            && m@ == "Unknown command: "@ + command@),
{
    proof {
        reveal_strlit("get_super_lotto_draws");
        reveal_strlit("analyze_hot_numbers");
    }
    assert("get_super_lotto_draws"@.len() != "analyze_hot_numbers"@.len());
    if crate::text::str_eq(command, "get_super_lotto_draws") {
        let limit = match params.limit { Some(l) => l, None => 100 };
        let offset = match params.offset { Some(o) => o, None => 0 };
        Ok(CommandPlan::SuperLottoDraws {
            limit,
            offset,
            start_date: copy_opt(&params.start_date),
            end_date: copy_opt(&params.end_date),
            draw_number: copy_opt(&params.draw_number),
        })
    } else if crate::text::str_eq(command, "analyze_hot_numbers") {
        let days: u32 = match params.days { Some(d) => #[verifier::truncate] (d as u32), None => 90 };
        assert(days == (match params.days { Some(d) => #[verifier::truncate] (d as u32), None => 90u32 }));
        Ok(CommandPlan::HotNumbers { days })
    } else {
        let mut m = owned("Unknown command: ");
        push_str(&mut m, command);
        Err(m)
    }
}

/// How a command is run.
#[derive(Debug)]
pub struct ExecutionOptions {
    pub cache_ttl_ms: u64,
    pub cache_key_fields: Option<Vec<String>>,
    pub user_context: Option<String>,
    pub compress_response: bool,
    pub timeout_ms: Option<u64>,
}

impl Default for ExecutionOptions {
    /// No caching, no key fields, no user, no compression, no timeout.
    fn default() -> (r: ExecutionOptions)
        ensures
            r.cache_ttl_ms == 0,
            r.cache_key_fields is None,
            r.user_context is None,
            !r.compress_response,
            r.timeout_ms is None,
    {
        ExecutionOptions {
            cache_ttl_ms: 0,
            cache_key_fields: None,
            user_context: None,
            compress_response: false,
            timeout_ms: None,
        }
    }
}

/// How a batch is run.
#[derive(Debug)]
pub struct BatchExecutionOptions {
    pub max_concurrent_requests: usize,
    pub default_options: ExecutionOptions,
}

impl Default for BatchExecutionOptions {
    /// Ten requests at a time, default options.
    fn default() -> (r: BatchExecutionOptions)
        ensures
            r.max_concurrent_requests == 10,
            r.default_options.cache_ttl_ms == 0,
            r.default_options.cache_key_fields is None,
            r.default_options.user_context is None,
    {
        BatchExecutionOptions { max_concurrent_requests: 10, default_options: ExecutionOptions::default() }
    }
}

/// The rounds a batch runs in: ranges `[start, end)` of at most
/// `min(max, n)` requests each, in order, covering every request once.
/// The batch must hold a request and the round size must not be zero.
pub fn plan_batch_rounds(n: usize, max: usize) -> (r: Vec<(usize, usize)>)
    requires
        n > 0,
        max > 0,
    ensures
        r@.len() > 0,
        r@[0].0 == 0,
        r@[r@.len() - 1].1 == n,
        forall|i: int| 0 <= i < r@.len() ==> (#[trigger] r@[i]).0 < r@[i].1
            && r@[i].1 - r@[i].0 <= (if max < n { max } else { n }),
        forall|i: int| 0 <= i < r@.len() - 1 ==> (#[trigger] r@[i]).1 == r@[i + 1].0
            && r@[i].1 - r@[i].0 == (if max < n { max } else { n }),
{
    let size = if max < n { max } else { n };
    let mut out: Vec<(usize, usize)> = Vec::new();
    let mut start: usize = 0;
    while start < n
        invariant
            0 < size <= n,
            size == (if max < n { max } else { n }),
            start <= n,
            out@.len() > 0 ==> out@[out@.len() - 1].1 == start,
            out@.len() == 0 ==> start == 0,
            out@.len() > 0 ==> out@[0].0 == 0,
            forall|i: int| 0 <= i < out@.len() ==> (#[trigger] out@[i]).0 < out@[i].1
                && out@[i].1 - out@[i].0 <= size,
            forall|i: int| 0 <= i < out@.len() - 1 ==> (#[trigger] out@[i]).1 == out@[i + 1].0
                && out@[i].1 - out@[i].0 == size,
            forall|i: int| 0 <= i < out@.len() ==> (#[trigger] out@[i]).1 - out@[i].0 == size || out@[i].1 == n,
        decreases n - start,
    {
        let end = if n - start > size { start + size } else { n };
        out.push((start, end));
        start = end;
    }
    out
}

/// The outcome of one request of a batch.
#[derive(Debug)]
pub struct BatchResult<D> {
    pub request_id: String,
    pub success: bool,
    pub data: Option<D>,
    pub error: Option<String>,
    pub execution_time_ms: u64,
}

/// The outcome of a batch.
#[derive(Debug)]
pub struct BatchResponse<D> {
    pub request_id: String,
    pub results: Vec<BatchResult<D>>,
    pub total_time_ms: u64,
    pub success_count: usize,
    pub error_count: usize,
}

/// One request outcome as a batch sees it: the result, or the error that
/// stopped the request.
pub enum RequestOutcome<D> {
    Done(BatchResult<D>),
    Failed(String),
}

/// The number of successful outcomes.
pub open spec fn successes<D>(s: Seq<RequestOutcome<D>>) -> nat
    decreases s.len(),
{
    if s.len() == 0 {
        0
    } else {
        successes(s.drop_last()) + if (s.last() matches RequestOutcome::Done(b) && b.success) { 1nat } else { 0nat }
    }
}

/// Calls `uuid::Uuid::new_v4()` and renders it as text, which uuid writes
/// in its hyphenated form: 36 characters. Nothing more is promised of the
/// value: it is random.
#[verifier::external_body]
pub(crate) fn new_request_id() -> (r: String)
    ensures
        r@.len() == 36,
{
    uuid::Uuid::new_v4().to_string()
}

/// Sums up the outcomes of a batch in order: a failed request becomes an
/// unsuccessful result with a fresh id, its error text, no data and no
/// time. Every outcome that is not a success counts as an error.
pub fn tally_batch<D>(batch_id: String, outcomes: Vec<RequestOutcome<D>>, total_time_ms: u64) -> (r: BatchResponse<D>)
    ensures
        r.request_id@ == batch_id@,
        r.total_time_ms == total_time_ms,
        r.results@.len() == outcomes@.len(),
        r.success_count == successes(outcomes@),
        r.success_count + r.error_count == outcomes@.len(),
        forall|i: int| 0 <= i < outcomes@.len() ==> match #[trigger] outcomes@[i] {
            RequestOutcome::Done(b) => r.results@[i] == b,
            RequestOutcome::Failed(e) => !r.results@[i].success && r.results@[i].data is None
                && (r.results@[i].error matches Some(t) && t@ == e@) && r.results@[i].execution_time_ms == 0,
        },
{
    let ghost orig = outcomes@;
    let n = outcomes.len();
    let mut results: Vec<BatchResult<D>> = Vec::new();
    let mut success_count: usize = 0;
    let mut error_count: usize = 0;
    let mut rest = outcomes;
    let mut i: usize = 0;
    while i < n
        invariant
            n == orig.len(),
            i <= orig.len(),
            rest@ == orig.subrange(i as int, orig.len() as int),
            results@.len() == i,
            success_count == successes(orig.subrange(0, i as int)),
            success_count + error_count == i,
            forall|j: int| 0 <= j < i ==> match #[trigger] orig[j] {
                RequestOutcome::Done(b) => results@[j] == b,
                RequestOutcome::Failed(e) => !results@[j].success && results@[j].data is None
                    && (results@[j].error matches Some(t) && t@ == e@) && results@[j].execution_time_ms == 0,
            },
        decreases orig.len() - i,
    {
        let o = rest.remove(0);
        assert(o == orig[i as int]);
        assert(rest@ =~= orig.subrange(i + 1, orig.len() as int));
        assert(orig.subrange(0, i + 1).drop_last() =~= orig.subrange(0, i as int));
        match o {
            RequestOutcome::Done(b) => {
                if b.success {
                    success_count = success_count + 1;
                } else {
                    error_count = error_count + 1;
                }
                results.push(b);
            },
            RequestOutcome::Failed(e) => {
                error_count = error_count + 1;
                results.push(BatchResult {
                    request_id: new_request_id(),
                    success: false,
                    data: None,
                    error: Some(e),
                    execution_time_ms: 0,
                });
            },
        }
        i = i + 1;
    }
    assert(orig.subrange(0, i as int) =~= orig);
    BatchResponse { request_id: batch_id, results, total_time_ms, success_count, error_count }
}

/// A cached response.
#[derive(Debug)]
pub struct CachedResponse<D> {
    pub data: D,
    pub etag: Option<String>,
    pub compressed: bool,
}

/// A request that took longer than the slow-request limit.
#[derive(Debug)]
pub struct SlowRequest {
    pub endpoint: String,
    pub duration_nanos: u64,
    pub timestamp: i64,
    pub parameters: Option<String>,
}

/// Request counters and the last fifty slow requests, oldest first.
#[derive(Debug)]
pub struct ApiMetrics {
    pub total_requests: u64,
    pub cache_hits: u64,
    pub cache_misses: u64,
    pub batch_requests: u64,
    pub average_response_nanos: u128,
    pub slow_requests: Vec<SlowRequest>,
}

/// A request slower than this many nanoseconds (two seconds) is slow.
pub const SLOW_REQUEST_NANOS: u64 = 2_000_000_000;

/// The most slow requests kept.
pub const MAX_SLOW_REQUESTS: usize = 50;

/// The most cached responses kept before a sweep.
pub const RESPONSE_CACHE_CAPACITY: usize = 1000;

/// How many of the oldest responses a sweep drops.
pub const RESPONSE_CACHE_SWEEP: usize = 100;

/// Nanoseconds per second.
pub const NANOS_PER_SEC: u128 = 1_000_000_000;

/// What `Duration / u32` gives, in nanoseconds, for the duration of
/// `secs` seconds and `nanos` nanoseconds divided by `n`.
pub uninterp spec fn duration_parts_quotient(secs: u64, nanos: u32, n: u32) -> u128;

/// Makes `std::time::Duration::new(secs, nanos)`, divides it by `n` with
/// `Duration`'s division and reads the result back with `as_nanos`; the
/// result depends on the arguments alone and is named
/// `duration_parts_quotient`. (`Duration` shows nothing of its value to
/// Verus, so the three steps stand in one item to keep the result named.)
#[verifier::external_body]
fn divide_duration_parts(secs: u64, nanos: u32, n: u32) -> (r: u128)
    requires
        n > 0,
        nanos < NANOS_PER_SEC,
    ensures
        r == duration_parts_quotient(secs, nanos, n),
{
    (std::time::Duration::new(secs, nanos) / n).as_nanos()
}

/// What `Duration / u32` gives, in nanoseconds, for a duration of `total`
/// nanoseconds divided by `n`.
pub open spec fn duration_quotient(total: u128, n: u32) -> u128 {
    duration_parts_quotient((total / NANOS_PER_SEC) as u64, (total % NANOS_PER_SEC) as u32, n)
}

/// Divides the duration of `total` nanoseconds by `n` as `Duration`'s
/// division does.
pub(crate) fn divide_duration(total: u128, n: u32) -> (r: u128)
    requires
        n > 0,
        total / NANOS_PER_SEC <= u64::MAX,
    ensures
        r == duration_quotient(total, n),
{
    let secs = (total / NANOS_PER_SEC) as u64;
    let nanos = (total % NANOS_PER_SEC) as u32;
    divide_duration_parts(secs, nanos, n)
}

/// What a `DefaultHasher` made by `new` (or `default`, which is the same)
/// gives for a string hashed into it.
pub uninterp spec fn default_str_hash(s: Seq<char>) -> u64;

/// Calls `BuildHasher::hash_one` on a `BuildHasherDefault<DefaultHasher>`,
/// which makes a hasher with `DefaultHasher::default`, hashes the string
/// into it and finishes it; `DefaultHasher::new` uses fixed keys, so the
/// result depends on the text alone and is named `default_str_hash`.
#[verifier::external_body]
pub(crate) fn hash_str(s: &str) -> (r: u64)
    ensures
        r == default_str_hash(s@),
{
    std::hash::BuildHasher::hash_one(&std::hash::BuildHasherDefault::<std::collections::hash_map::DefaultHasher>::default(), s)
}

/// The `DefaultHasher` hash of a string in lower-case hexadecimal.
pub open spec fn default_hash_hex(s: Seq<char>) -> Seq<char> {
    hex_spec(default_str_hash(s) as nat)
}

/// Hashes a string with `DefaultHasher` and writes the hash in lower-case
/// hexadecimal.
pub(crate) fn hash_hex(s: &str) -> (r: String)
    ensures
        r@ == default_hash_hex(s@),
{
    u64_to_hex(hash_str(s))
}

/// The text a request's cache key is the hash of: the command and a
/// colon; then, for each key field that the parameters hold, the field, a
/// colon, its JSON value and a comma, or without key fields the whole
/// parameters as JSON; then `user:` and the user, if any.
pub open spec fn cache_key_source(command: Seq<char>, fields: Option<Seq<Seq<char>>>, field_values: Seq<Option<Seq<char>>>, params_json: Seq<char>, user: Option<Seq<char>>) -> Seq<char> {
    command + ":"@ + (match fields {
        Some(f) => fields_text(f, field_values),
        None => params_json,
    }) + (match user {
        Some(u) => "user:"@ + u,
        None => Seq::empty(),
    })
}

/// `field:value,` for each field whose value is present.
pub open spec fn fields_text(fields: Seq<Seq<char>>, values: Seq<Option<Seq<char>>>) -> Seq<char>
    decreases fields.len(),
{
    if fields.len() == 0 {
        Seq::empty()
    } else {
        let rest = fields_text(fields.drop_last(), values);
        match values[fields.len() - 1] {
            Some(v) => rest + fields.last() + ":"@ + v + ","@,
            None => rest,
        }
    }
}

/// The views of a list of optional strings.
pub open spec fn opt_views(s: Seq<Option<String>>) -> Seq<Option<Seq<char>>> {
    s.map_values(|o: Option<String>| opt_seq(o))
}

/// The cache key of a request: the hash of `cache_key_source`.
/// `field_values` holds, for each key field of the options, the JSON text
/// of that field of the parameters, if present; `params_json` the JSON text
/// of all the parameters.
pub fn generate_cache_key(command: &str, field_values: &Vec<Option<String>>, params_json: &str, options: &ExecutionOptions) -> (r: String)
    requires
        options.cache_key_fields matches Some(f) ==> field_values@.len() == f@.len(),
    ensures
        r@ == default_hash_hex(cache_key_source(
            command@,
            match options.cache_key_fields { Some(f) => Some(string_views(f@)), None => None },
            opt_views(field_values@),
            params_json@,
            opt_seq(options.user_context),
        )),
{
    let mut key = owned(command);
    push_str(&mut key, ":");
    let ghost k0 = key@;
    match &options.cache_key_fields {
        Some(fields) => {
            let mut i: usize = 0;
            while i < fields.len()
                invariant
                    i <= fields@.len(),
                    field_values@.len() == fields@.len(),
                    key@ == k0 + fields_text(string_views(fields@).subrange(0, i as int), opt_views(field_values@)),
                decreases fields@.len() - i,
            {
                proof {
                    let sub = string_views(fields@).subrange(0, i + 1);
                    assert(sub.drop_last() =~= string_views(fields@).subrange(0, i as int));
                    assert(opt_views(field_values@)[i as int] == opt_seq(field_values@[i as int]));
                }
                if let Some(v) = &field_values[i] {
                    push_str(&mut key, fields[i].as_str());
                    push_str(&mut key, ":");
                    push_str(&mut key, v.as_str());
                    push_str(&mut key, ",");
                }
                i = i + 1;
            }
            assert(string_views(fields@).subrange(0, i as int) =~= string_views(fields@));
        },
        None => {
            push_str(&mut key, params_json);
        },
    }
    let ghost k1 = key@;
    assert(k1 == k0 + (match options.cache_key_fields {
        Some(f) => fields_text(string_views(f@), opt_views(field_values@)),
        None => params_json@,
    }));
    if let Some(user) = &options.user_context {
        push_str(&mut key, "user:");
        push_str(&mut key, user.as_str());
    }
    assert(key@ =~= cache_key_source(
        command@,
        match options.cache_key_fields { Some(f) => Some(string_views(f@)), None => None },
        opt_views(field_values@),
        params_json@,
        opt_seq(options.user_context),
    ));
    hash_hex(key.as_str())
}

/// The command layer's cache and counters.
pub struct ApiPerformanceManager<D> {
    request_cache: TimedCache<CachedResponse<D>>,
    metrics: ApiMetrics,
}

impl<D> ApiPerformanceManager<D> {
    /// The response cache.
    pub closed spec fn cache(&self) -> TimedCache<CachedResponse<D>> {
        self.request_cache
    }

    /// The counters.
    pub closed spec fn spec_metrics(&self) -> ApiMetrics {
        self.metrics
    }

    /// The cache is well formed with its capacity and sweep, and at most
    /// fifty slow requests are kept.
    pub closed spec fn wf(&self) -> bool {
        &&& self.request_cache.wf()
        &&& self.request_cache.spec_capacity() == RESPONSE_CACHE_CAPACITY
        &&& self.request_cache.spec_sweep() == RESPONSE_CACHE_SWEEP
        &&& self.metrics.slow_requests@.len() <= MAX_SLOW_REQUESTS
    }

    /// An empty cache and zero counters.
    pub fn new() -> (r: ApiPerformanceManager<D>)
        ensures
            r.wf(),
            r.cache().size() == 0,
            r.spec_metrics().total_requests == 0,
            r.spec_metrics().cache_hits == 0,
            r.spec_metrics().cache_misses == 0,
            r.spec_metrics().batch_requests == 0,
            r.spec_metrics().average_response_nanos == 0,
            r.spec_metrics().slow_requests@.len() == 0,
    {
        ApiPerformanceManager {
            request_cache: TimedCache::new(RESPONSE_CACHE_CAPACITY, RESPONSE_CACHE_SWEEP),
            metrics: ApiMetrics {
                total_requests: 0,
                cache_hits: 0,
                cache_misses: 0,
                batch_requests: 0,
                average_response_nanos: 0,
                slow_requests: Vec::new(),
            },
        }
    }

    /// The cached response of `key` if it is fresh at `now_ms`.
    pub fn get_from_cache(&self, key: &str, now_ms: u64) -> (r: Option<&D>)
        requires
            self.wf(),
        ensures
            match r {
                Some(d) => self.cache().entry_map().contains_key(key@) && is_fresh(
                    self.cache().entry_map()[key@].stored_at_ms,
                    self.cache().entry_map()[key@].ttl_ms,
                    now_ms,
                ) && *d == self.cache().entry_map()[key@].value.data,
                None => !self.cache().entry_map().contains_key(key@) || !is_fresh(
                    self.cache().entry_map()[key@].stored_at_ms,
                    self.cache().entry_map()[key@].ttl_ms,
                    now_ms,
                ),
            },
    {
        match self.request_cache.get_fresh(key, now_ms) {
            Some(c) => Some(&c.data),
            None => None,
        }
    }

    /// Caches a response of `key` at `now_ms` for `ttl_ms`; beyond a
    /// thousand responses the hundred oldest are dropped.
    pub fn cache_response(&mut self, key: String, data: D, ttl_ms: u64, now_ms: u64)
        requires
            old(self).wf(),
        ensures
            final(self).wf(),
            final(self).spec_metrics() == old(self).spec_metrics(),
            ({
                let stored = old(self).cache().entry_map().insert(key@, TimedEntry {
                    value: CachedResponse { data, etag: None, compressed: false },
                    stored_at_ms: now_ms,
                    ttl_ms,
                });
                let n = if old(self).cache().entry_map().contains_key(key@) { old(self).cache().size() } else { old(self).cache().size() + 1 };
                if n > RESPONSE_CACHE_CAPACITY {
                    &&& final(self).cache().size() == n - RESPONSE_CACHE_SWEEP
                    &&& final(self).cache().entry_map().submap_of(stored)
                    &&& forall|gone: Seq<char>, kept: Seq<char>|
                        #![trigger stored.contains_key(gone), final(self).cache().entry_map().contains_key(kept)]
                        stored.contains_key(gone) && !final(self).cache().entry_map().contains_key(gone)
                            && final(self).cache().entry_map().contains_key(kept)
                            ==> stored[gone].stored_at_ms <= stored[kept].stored_at_ms
                } else {
                    &&& final(self).cache().entry_map() == stored
                    &&& final(self).cache().size() == n
                }
            }),
    {
        self.request_cache.store(key, CachedResponse { data, etag: None, compressed: false }, ttl_ms, now_ms);
    }

    /// Counts a request answered from the cache.
    pub fn record_cache_hit(&mut self)
        requires
            old(self).wf(),
            old(self).spec_metrics().cache_hits < u64::MAX,
        ensures
            final(self).wf(),
            final(self).cache() == old(self).cache(),
            final(self).spec_metrics() == (ApiMetrics { cache_hits: (old(self).spec_metrics().cache_hits + 1) as u64, ..old(self).spec_metrics() }),
    {
        self.metrics.cache_hits = self.metrics.cache_hits + 1;
    }

    /// Counts a request not answered from the cache.
    pub fn record_cache_miss(&mut self)
        requires
            old(self).wf(),
            old(self).spec_metrics().cache_misses < u64::MAX,
        ensures
            final(self).wf(),
            final(self).cache() == old(self).cache(),
            final(self).spec_metrics() == (ApiMetrics { cache_misses: (old(self).spec_metrics().cache_misses + 1) as u64, ..old(self).spec_metrics() }),
    {
        self.metrics.cache_misses = self.metrics.cache_misses + 1;
    }

    /// Counts a request that took `duration_nanos`: the mean response time
    /// becomes `(mean * (n - 1) + duration) / n` with `Duration`'s
    /// arithmetic, `n` the new request count, which that arithmetic takes
    /// as a `u32` (the count cut to its low 32 bits); a request slower than
    /// two seconds joins the slow list, which keeps the last fifty.
    pub fn update_request_metrics(&mut self, endpoint: &str, duration_nanos: u64, timestamp: i64)
        requires
            old(self).wf(),
            old(self).spec_metrics().total_requests < u64::MAX,
            (old(self).spec_metrics().total_requests + 1) as u32 != 0,
            (old(self).spec_metrics().average_response_nanos * (old(self).spec_metrics().total_requests as u32) + duration_nanos)
                / (NANOS_PER_SEC as int) <= u64::MAX,
        ensures
            final(self).wf(),
            final(self).cache() == old(self).cache(),
            final(self).spec_metrics().total_requests == old(self).spec_metrics().total_requests + 1,
            final(self).spec_metrics().average_response_nanos == duration_quotient(
                (old(self).spec_metrics().average_response_nanos * (old(self).spec_metrics().total_requests as u32) + duration_nanos) as u128,
                (old(self).spec_metrics().total_requests + 1) as u32,
            ),
            final(self).spec_metrics().cache_hits == old(self).spec_metrics().cache_hits,
            final(self).spec_metrics().cache_misses == old(self).spec_metrics().cache_misses,
            final(self).spec_metrics().batch_requests == old(self).spec_metrics().batch_requests,
            ({
                let old_slow = old(self).spec_metrics().slow_requests@;
                let new_slow = final(self).spec_metrics().slow_requests@;
                if duration_nanos > SLOW_REQUEST_NANOS {
                    let kept = if old_slow.len() + 1 > MAX_SLOW_REQUESTS { old_slow.drop_first() } else { old_slow };
                    &&& new_slow.len() == kept.len() + 1
                    &&& new_slow.drop_last() == kept
                    &&& new_slow.last().endpoint@ == endpoint@
                    &&& new_slow.last().duration_nanos == duration_nanos
                    &&& new_slow.last().timestamp == timestamp
                    &&& new_slow.last().parameters is None
                } else {
                    new_slow == old_slow
                }
            }),
    {
        let previous = self.metrics.total_requests;
        let count = previous + 1;
        self.metrics.total_requests = count;
        let factor: u32 = #[verifier::truncate] (previous as u32);
        let divisor: u32 = #[verifier::truncate] (count as u32);
        let total: u128 = self.metrics.average_response_nanos * factor as u128 + duration_nanos as u128;
        self.metrics.average_response_nanos = divide_duration(total, divisor);
        if duration_nanos > SLOW_REQUEST_NANOS {
            let ghost old_slow = self.metrics.slow_requests@;
            self.metrics.slow_requests.push(SlowRequest {
                endpoint: owned(endpoint),
                duration_nanos,
                timestamp,
                parameters: None,
            });
            if self.metrics.slow_requests.len() > MAX_SLOW_REQUESTS {
                self.metrics.slow_requests.remove(0);
            }
            proof {
                let kept = if old_slow.len() + 1 > MAX_SLOW_REQUESTS { old_slow.drop_first() } else { old_slow };
                assert(self.metrics.slow_requests@.drop_last() =~= kept);
            }
        }
    }

    /// The counters.
    pub fn metrics(&self) -> (r: &ApiMetrics)
        ensures
            *r == self.spec_metrics(),
    {
        &self.metrics
    }

    /// The number of cached responses.
    pub fn cached_responses(&self) -> (r: usize)
        ensures
            r == self.cache().size(),
    {
        self.request_cache.len()
    }

    /// Advice drawn from the counters: under 30 % of lookups hitting the
    /// cache, a mean response time above a second, more than a thousand
    /// cached responses, more than five slow requests.
    pub fn optimization_recommendations(&self) -> (r: Vec<String>)
        ensures
            string_views(r@) == api_recommendations(self.spec_metrics(), self.cache().size()),
    {
        let m = &self.metrics;
        let mut out: Vec<String> = Vec::new();
        let lookups: u128 = m.cache_hits as u128 + m.cache_misses as u128;
        if lookups == 0 || 10 * (m.cache_hits as u128) < 3 * lookups {
            out.push(owned("Increase cache TTL for frequently accessed endpoints"));
        }
        if m.average_response_nanos > 1_000_000_000 {
            out.push(owned("Optimize slow database queries or increase request timeout"));
        }
        if self.request_cache.len() > 1000 {
            out.push(owned("Implement cache size limits and LRU eviction policy"));
        }
        if m.slow_requests.len() > 5 {
            out.push(owned("Review slow requests and implement specific optimizations"));
        }
        assert(string_views(out@) =~= api_recommendations(self.spec_metrics(), self.cache().size()));
        out
    }
}

/// The advice for a set of counters and a cache size, in order.
pub open spec fn api_recommendations(m: ApiMetrics, cached: nat) -> Seq<Seq<char>> {
    let lookups = m.cache_hits + m.cache_misses;
    (if lookups == 0 || 10 * m.cache_hits < 3 * lookups {
        seq!["Increase cache TTL for frequently accessed endpoints"@]
    } else {
        Seq::empty()
    }) + (if m.average_response_nanos > 1_000_000_000 {
        seq!["Optimize slow database queries or increase request timeout"@]
    } else {
        Seq::empty()
    }) + (if cached > 1000 {
        seq!["Implement cache size limits and LRU eviction policy"@]
    } else {
        Seq::empty()
    }) + (if m.slow_requests@.len() > 5 {
        seq!["Review slow requests and implement specific optimizations"@]
    } else {
        Seq::empty()
    })
}

impl<D> ApiPerformanceManager<D> {
    /// Drops the cached responses whose key the regular expression
    /// `pattern` matches, or all of them without a pattern. A pattern that
    /// does not compile is refused with `Invalid regex pattern: ` and the
    /// regex crate's error, and nothing changes.
    pub fn clear_cache(&mut self, pattern: Option<&str>) -> (r: Result<(), String>)
        requires
            old(self).wf(),
        ensures
            final(self).wf(),
            final(self).spec_metrics() == old(self).spec_metrics(),
            match pattern {
                None => r is Ok && final(self).cache().size() == 0
                    && final(self).cache().entry_map() == Map::<Seq<char>, TimedEntry<CachedResponse<D>>>::empty(),
                Some(p) => match regex_error_text(p@) {
                    Some(e) => r matches Err(m) && m@ == "Invalid regex pattern: "@ + e
                        && final(self).cache() == old(self).cache(),
                    None => r is Ok
                        && final(self).cache().entry_map().submap_of(old(self).cache().entry_map())
                        && forall|k: Seq<char>| #[trigger] final(self).cache().entry_map().contains_key(k)
                            <==> (old(self).cache().entry_map().contains_key(k) && regex_match_result(p@, k) != Some(true)),
                },
            },
    {
        match pattern {
            None => {
                self.request_cache.clear();
                Ok(())
            },
            Some(p) => {
                if let Some(e) = regex_error(p) {
                    let mut m = owned("Invalid regex pattern: ");
                    push_str(&mut m, e.as_str());
                    return Err(m);
                }
                let keys = self.request_cache.keys();
                let ghost orig = self.request_cache.entry_map();
                let ghost views = string_views(keys@);
                let mut i: usize = 0;
                while i < keys.len()
                    invariant
                        i <= keys@.len(),
                        views == string_views(keys@),
                        self.request_cache.wf(),
                        self.request_cache.spec_capacity() == RESPONSE_CACHE_CAPACITY,
                        self.request_cache.spec_sweep() == RESPONSE_CACHE_SWEEP,
                        self.metrics == old(self).spec_metrics(),
                        self.metrics.slow_requests@.len() <= MAX_SLOW_REQUESTS,
                        orig == old(self).cache().entry_map(),
                        forall|k: Seq<char>| orig.contains_key(k) <==> views.contains(k),
                        self.request_cache.entry_map().submap_of(orig),
                        forall|k: Seq<char>| #[trigger] self.request_cache.entry_map().contains_key(k) <==> (orig.contains_key(k)
                            && !(exists|x: int| 0 <= x < i && views[x] == k && regex_match_result(p@, k) == Some(true))),
                    decreases keys@.len() - i,
                {
                    let matched = regex_match(p, keys[i].as_str());
                    if let Some(true) = matched {
                        let _ = self.request_cache.take(keys[i].as_str());
                    }
                    proof {
                        assert(views[i as int] == keys@[i as int]@);
                        assert forall|k: Seq<char>| #[trigger] self.request_cache.entry_map().contains_key(k) <==> (orig.contains_key(k)
                            && !(exists|x: int| 0 <= x < i + 1 && views[x] == k && regex_match_result(p@, k) == Some(true))) by {
                            if exists|x: int| 0 <= x < i + 1 && views[x] == k && regex_match_result(p@, k) == Some(true) {
                                let x = choose|x: int| 0 <= x < i + 1 && views[x] == k && regex_match_result(p@, k) == Some(true);
                                if x == i {
                                    assert(k == keys@[i as int]@);
                                }
                            }
                        }
                    }
                    i = i + 1;
                }
                proof {
                    assert forall|k: Seq<char>| #[trigger] self.request_cache.entry_map().contains_key(k) <==> (orig.contains_key(k)
                        && regex_match_result(p@, k) != Some(true)) by {
                        if orig.contains_key(k) && regex_match_result(p@, k) == Some(true) {
                            assert(views.contains(k));
                            let x = choose|x: int| 0 <= x < views.len() && views[x] == k;
                            assert(views[x] == k);
                        }
                    }
                }
                Ok(())
            },
        }
    }
}

} // verus!
