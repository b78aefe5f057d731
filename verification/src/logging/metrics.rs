//! Counting what the logging system handles: logs in all, by level and by
//! target, their bytes, errors and warnings, and the first and last
//! instants (milliseconds since the Unix epoch); per target and level in
//! detail; summed or maximised over several collectors. Averages and rates
//! are quotients of these counts.

use vstd::prelude::*;
use crate::assoc::{as_map, get_value, insert_value, keys_unique};
use crate::logging::traits::{LogLevel, MetricsMetadata, SimpleLogRecord};
use crate::text::{byte_len, owned, push_str, utf8_len};

verus! {

/// `a + b`, wrapping around at the top of `u64`.
pub open spec fn wadd(a: u64, b: u64) -> u64 {
    if a + b <= u64::MAX { (a + b) as u64 } else { (a + b - 0x1_0000_0000_0000_0000) as u64 }
}

/// Adds two counters, wrapping around at the top.
pub fn wrapping_sum(a: u64, b: u64) -> (r: u64)
    ensures
        r == wadd(a, b),
{
    if a <= u64::MAX - b { a + b } else { a - (u64::MAX - b) - 1 }
}

/// The count of `k` in `m`, zero when absent.
pub open spec fn count_of(m: Map<Seq<char>, u64>, k: Seq<char>) -> u64 {
    if m.contains_key(k) { m[k] } else { 0 }
}

/// Adds `n` to the count of `key`.
pub fn add_count(v: &mut Vec<(String, u64)>, key: String, n: u64)
    requires
        keys_unique(old(v)@),
    ensures
        keys_unique(final(v)@),
        as_map(final(v)@) == as_map(old(v)@).insert(key@, wadd(count_of(as_map(old(v)@), key@), n)),
{
    let current: u64 = match get_value(v, key.as_str()) {
        Some(c) => *c,
        None => 0,
    };
    let next = wrapping_sum(current, n);
    insert_value(v, key, next);
}

/// A copy of a list of counts.
pub fn copy_counts(v: &Vec<(String, u64)>) -> (r: Vec<(String, u64)>)
    ensures
        r@.len() == v@.len(),
        forall|i: int| 0 <= i < v@.len() ==> (#[trigger] r@[i]).0@ == v@[i].0@ && r@[i].1 == v@[i].1,
{
    let mut out: Vec<(String, u64)> = Vec::new();
    let mut i: usize = 0;
    while i < v.len()
        invariant
            i <= v@.len(),
            out@.len() == i,
            forall|j: int| 0 <= j < i ==> (#[trigger] out@[j]).0@ == v@[j].0@ && out@[j].1 == v@[j].1,
        decreases v@.len() - i,
    {
        out.push((v[i].0.clone(), v[i].1));
        i = i + 1;
    }
    out
}

/// The key under which a level is counted: its lower-case name.
pub open spec fn level_key(level: LogLevel) -> Seq<char> {
    match level {
        LogLevel::Trace => "trace"@,
        LogLevel::Debug => "debug"@,
        LogLevel::Info => "info"@,
        LogLevel::Warn => "warn"@,
        LogLevel::Error => "error"@,
        LogLevel::Fatal => "fatal"@,
    }
}

/// The lower-case name of a level.
pub fn level_key_str(level: LogLevel) -> (r: &'static str)
    ensures
        r@ == level_key(level),
{
    match level {
        LogLevel::Trace => "trace",
        LogLevel::Debug => "debug",
        LogLevel::Info => "info",
        LogLevel::Warn => "warn",
        LogLevel::Error => "error",
        LogLevel::Fatal => "fatal",
    }
}

/// Counts of logs. `logs_by_level` and `logs_by_target` hold each key once.
#[derive(Debug)]
pub struct LogMetrics {
    pub total_logs: u64,
    pub logs_by_level: Vec<(String, u64)>,
    pub logs_by_target: Vec<(String, u64)>,
    pub total_bytes: u64,
    pub errors: u64,
    pub warnings: u64,
    pub first_log: Option<i64>,
    pub last_log: Option<i64>,
}

impl LogMetrics {
    /// The count lists hold each key once.
    pub open spec fn wf(&self) -> bool {
        keys_unique(self.logs_by_level@) && keys_unique(self.logs_by_target@)
    }

    /// Nothing counted yet.
    pub open spec fn is_zero(&self) -> bool {
        &&& self.total_logs == 0 && self.total_bytes == 0 && self.errors == 0 && self.warnings == 0
        &&& self.logs_by_level@.len() == 0 && self.logs_by_target@.len() == 0
        &&& self.first_log is None && self.last_log is None
    }

    /// No logs counted.
    pub fn new() -> (r: Self)
        ensures
            r.wf(),
            r.is_zero(),
    {
        LogMetrics {
            total_logs: 0,
            logs_by_level: Vec::new(),
            logs_by_target: Vec::new(),
            total_bytes: 0,
            errors: 0,
            warnings: 0,
            first_log: None,
            last_log: None,
        }
    }

    /// Counts one log of `level` from `target` of `size_bytes` bytes at
    /// `now`: errors and fatal logs count as errors, warnings as warnings.
    pub fn record_log(&mut self, level: LogLevel, target: &str, size_bytes: u64, now: i64)
        requires
            old(self).wf(),
        ensures
            final(self).wf(),
            final(self).total_logs == wadd(old(self).total_logs, 1),
            final(self).total_bytes == wadd(old(self).total_bytes, size_bytes),
            final(self).last_log == Some(now),
            final(self).first_log == if old(self).first_log is None { Some(now) } else { old(self).first_log },
            as_map(final(self).logs_by_level@) == as_map(old(self).logs_by_level@).insert(level_key(level),
                wadd(count_of(as_map(old(self).logs_by_level@), level_key(level)), 1)),
            as_map(final(self).logs_by_target@) == as_map(old(self).logs_by_target@).insert(target@,
                wadd(count_of(as_map(old(self).logs_by_target@), target@), 1)),
            final(self).errors == if level == LogLevel::Error || level == LogLevel::Fatal {
                wadd(old(self).errors, 1)
            } else {
                old(self).errors
            },
            final(self).warnings == if level == LogLevel::Warn { wadd(old(self).warnings, 1) } else { old(self).warnings },
    {
        self.total_logs = wrapping_sum(self.total_logs, 1);
        self.total_bytes = wrapping_sum(self.total_bytes, size_bytes);
        self.last_log = Some(now);
        if self.first_log.is_none() {
            self.first_log = Some(now);
        }
        add_count(&mut self.logs_by_level, owned(level_key_str(level)), 1);
        add_count(&mut self.logs_by_target, owned(target), 1);
        match level {
            LogLevel::Error => self.errors = wrapping_sum(self.errors, 1),
            LogLevel::Fatal => self.errors = wrapping_sum(self.errors, 1),
            LogLevel::Warn => self.warnings = wrapping_sum(self.warnings, 1),
            _ => {},
        }
    }

    /// A copy of the counts.
    pub fn duplicate(&self) -> (r: Self)
        requires
            self.wf(),
        ensures
            r.wf(),
            r.same_as(*self),
    {
        let r = LogMetrics {
            total_logs: self.total_logs,
            logs_by_level: copy_counts(&self.logs_by_level),
            logs_by_target: copy_counts(&self.logs_by_target),
            total_bytes: self.total_bytes,
            errors: self.errors,
            warnings: self.warnings,
            first_log: self.first_log,
            last_log: self.last_log,
        };
        proof {
            lemma_copy_counts_map(self.logs_by_level@, r.logs_by_level@);
            lemma_copy_counts_map(self.logs_by_target@, r.logs_by_target@);
        }
        r
    }

    /// The same counts as `o`.
    pub open spec fn same_as(&self, o: LogMetrics) -> bool {
        &&& self.total_logs == o.total_logs && self.total_bytes == o.total_bytes
        &&& self.errors == o.errors && self.warnings == o.warnings
        &&& self.first_log == o.first_log && self.last_log == o.last_log
        &&& as_map(self.logs_by_level@) == as_map(o.logs_by_level@)
        &&& as_map(self.logs_by_target@) == as_map(o.logs_by_target@)
    }
}

impl Default for LogMetrics {
    fn default() -> (r: Self)
        ensures
            r.wf(),
            r.is_zero(),
    {
        LogMetrics::new()
    }
}

/// An entry-by-entry copy of counts with unique keys maps the same.
pub proof fn lemma_copy_counts_map(a: Seq<(String, u64)>, b: Seq<(String, u64)>)
    requires
        keys_unique(a),
        a.len() == b.len(),
        forall|i: int| 0 <= i < a.len() ==> (#[trigger] b[i]).0@ == a[i].0@ && b[i].1 == a[i].1,
    ensures
        keys_unique(b),
        as_map(a) == as_map(b),
{
    assert forall|i: int, j: int| 0 <= i < b.len() && 0 <= j < b.len() && i != j implies b[i].0@ != b[j].0@ by {
        assert(a[i].0@ == b[i].0@ && a[j].0@ == b[j].0@);
    }
    assert forall|k: Seq<char>| crate::assoc::has_key(a, k) <==> crate::assoc::has_key(b, k) by {
        if crate::assoc::has_key(a, k) {
            let i = choose|i: int| 0 <= i < a.len() && #[trigger] a[i].0@ == k;
            assert(b[i].0@ == k);
        }
        if crate::assoc::has_key(b, k) {
            let i = choose|i: int| 0 <= i < b.len() && #[trigger] b[i].0@ == k;
            assert(a[i].0@ == k);
        }
    }
    assert forall|k: Seq<char>| #[trigger] as_map(a).contains_key(k) implies as_map(a)[k] == as_map(b)[k] by {
        let j = crate::assoc::index_of_key(a, k);
        assert(a[j].0@ == k);
        crate::assoc::lemma_index_of_key(a, j);
        crate::assoc::lemma_index_of_key(b, j);
    }
    assert(as_map(a) =~= as_map(b));
}

/// What the collector gathers.
#[derive(Debug, Clone, Copy)]
pub struct MetricsCollectionConfig {
    pub collect_per_target: bool,
    pub collect_per_level: bool,
    pub track_performance: bool,
    pub track_errors: bool,
    pub max_history_hours: u64,
}

impl Default for MetricsCollectionConfig {
    fn default() -> (r: Self)
        ensures
            r.collect_per_target && r.collect_per_level && r.track_performance && r.track_errors,
            r.max_history_hours == 24,
    {
        MetricsCollectionConfig {
            collect_per_target: true,
            collect_per_level: true,
            track_performance: true,
            track_errors: true,
            max_history_hours: 24,
        }
    }
}

/// How the metrics of several collectors combine.
#[derive(Debug, Clone, Copy, PartialEq, Eq, Structural)]
pub enum AggregationMode {
    /// Add all metrics together
    Sum,
    /// Average metrics across collectors
    Average,
    /// Take the metrics with the most logs
    Max,
}

/// What a `LogMetrics` holds, with its count lists as maps.
pub struct MetricsView {
    pub total_logs: u64,
    pub total_bytes: u64,
    pub errors: u64,
    pub warnings: u64,
    pub first_log: Option<i64>,
    pub last_log: Option<i64>,
    pub by_level: Map<Seq<char>, u64>,
    pub by_target: Map<Seq<char>, u64>,
}

impl LogMetrics {
    /// The counts, with the count lists as maps.
    pub open spec fn counts(&self) -> MetricsView {
        MetricsView {
            total_logs: self.total_logs,
            total_bytes: self.total_bytes,
            errors: self.errors,
            warnings: self.warnings,
            first_log: self.first_log,
            last_log: self.last_log,
            by_level: as_map(self.logs_by_level@),
            by_target: as_map(self.logs_by_target@),
        }
    }
}

/// Nothing counted.
pub open spec fn zero_view() -> MetricsView {
    MetricsView {
        total_logs: 0,
        total_bytes: 0,
        errors: 0,
        warnings: 0,
        first_log: None,
        last_log: None,
        by_level: Map::empty(),
        by_target: Map::empty(),
    }
}

/// The earlier of an optional instant and `x`.
pub open spec fn earlier(a: Option<i64>, x: i64) -> Option<i64> {
    match a {
        None => Some(x),
        Some(f) => if x < f { Some(x) } else { a },
    }
}

/// The later of an optional instant and `x`.
pub open spec fn later(a: Option<i64>, x: i64) -> Option<i64> {
    match a {
        None => Some(x),
        Some(f) => if x > f { Some(x) } else { a },
    }
}

/// Counts of the logs of one target at one level; instants in milliseconds
/// since the Unix epoch.
#[derive(Debug)]
pub struct DetailedLogMetrics {
    pub target: String,
    pub level: LogLevel,
    pub count: u64,
    pub total_size: u64,
    pub first_seen: i64,
    pub last_seen: i64,
    pub error_count: u64,
}

impl DetailedLogMetrics {
    /// Nothing counted yet for `target` at `level`, first and last seen `now`.
    pub fn new(target: String, level: LogLevel, now: i64) -> (r: Self)
        ensures
            r.target == target && r.level == level,
            r.count == 0 && r.total_size == 0 && r.error_count == 0,
            r.first_seen == now && r.last_seen == now,
    {
        DetailedLogMetrics { target, level, count: 0, total_size: 0, first_seen: now, last_seen: now, error_count: 0 }
    }

    /// Counts one log of `size_bytes` bytes seen at `now`.
    pub fn record_log(&mut self, size_bytes: u64, now: i64)
        ensures
            final(self).count == wadd(old(self).count, 1),
            final(self).total_size == wadd(old(self).total_size, size_bytes),
            final(self).last_seen == now,
            final(self).target == old(self).target && final(self).level == old(self).level,
            final(self).first_seen == old(self).first_seen,
            final(self).error_count == old(self).error_count,
    {
        self.count = wrapping_sum(self.count, 1);
        self.total_size = wrapping_sum(self.total_size, size_bytes);
        self.last_seen = now;
    }

    /// Counts one error.
    pub fn record_error(&mut self)
        ensures
            final(self).error_count == wadd(old(self).error_count, 1),
            final(self).target == old(self).target && final(self).level == old(self).level,
            final(self).count == old(self).count && final(self).total_size == old(self).total_size,
            final(self).first_seen == old(self).first_seen && final(self).last_seen == old(self).last_seen,
    {
        self.error_count = wrapping_sum(self.error_count, 1);
    }
}

/// The counts over the detailed entries of `target`.
pub open spec fn target_fold(s: Seq<(String, DetailedLogMetrics)>, target: Seq<char>) -> MetricsView
    decreases s.len(),
{
    if s.len() == 0 {
        zero_view()
    } else {
        let v = target_fold(s.drop_last(), target);
        let d = s.last().1;
        if d.target@ == target {
            MetricsView {
                total_logs: wadd(v.total_logs, d.count),
                total_bytes: wadd(v.total_bytes, d.total_size),
                errors: wadd(v.errors, d.error_count),
                warnings: wadd(v.warnings, if d.level == LogLevel::Warn { d.count } else { 0 }),
                first_log: earlier(v.first_log, d.first_seen),
                last_log: later(v.last_log, d.last_seen),
                by_level: v.by_level.insert(level_key(d.level), wadd(count_of(v.by_level, level_key(d.level)), d.count)),
                by_target: v.by_target.insert(target, wadd(count_of(v.by_target, target), d.count)),
            }
        } else {
            v
        }
    }
}

/// The counts over the detailed entries of `level`: logs, bytes, errors
/// and (at the warning level) warnings.
pub open spec fn level_fold(s: Seq<(String, DetailedLogMetrics)>, level: LogLevel) -> MetricsView
    decreases s.len(),
{
    if s.len() == 0 {
        zero_view()
    } else {
        let v = level_fold(s.drop_last(), level);
        let d = s.last().1;
        if d.level == level {
            MetricsView {
                total_logs: wadd(v.total_logs, d.count),
                total_bytes: wadd(v.total_bytes, d.total_size),
                errors: wadd(v.errors, d.error_count),
                warnings: wadd(v.warnings, if level == LogLevel::Warn { d.count } else { 0 }),
                ..v
            }
        } else {
            v
        }
    }
}

/// The key of the detailed entry of a target at a level.
pub open spec fn detail_key(target: Seq<char>, level: LogLevel) -> Seq<char> {
    target + ":"@ + level.spec_as_str()
}

/// Collects counts of logs, in all and per target and level.
pub struct DefaultLogMetricsCollector {
    metrics: LogMetrics,
    detailed_metrics: Vec<(String, DetailedLogMetrics)>,
    collection_config: MetricsCollectionConfig,
    metadata: MetricsMetadata,
}

impl DefaultLogMetricsCollector {
    /// The overall counts.
    pub closed spec fn spec_metrics(&self) -> LogMetrics {
        self.metrics
    }

    /// The detailed entries, each key once.
    pub closed spec fn spec_detailed(&self) -> Seq<(String, DetailedLogMetrics)> {
        self.detailed_metrics@
    }

    /// What is collected.
    pub closed spec fn spec_config(&self) -> MetricsCollectionConfig {
        self.collection_config
    }

    /// The collector's description.
    pub closed spec fn spec_metadata(&self) -> MetricsMetadata {
        self.metadata
    }

    /// The count lists and the detailed entries hold each key once.
    pub open spec fn wf(&self) -> bool {
        self.spec_metrics().wf() && keys_unique(self.spec_detailed())
    }

    /// A collector with the default configuration.
    pub fn new() -> (r: Self)
        ensures
            r.wf(),
            r.spec_metrics().is_zero(),
            r.spec_detailed().len() == 0,
            r.spec_config().collect_per_target && r.spec_config().collect_per_level,
            r.spec_config().track_performance && r.spec_config().track_errors,
            r.spec_config().max_history_hours == 24,
            r.spec_metadata().name@ == "default"@,
    {
        DefaultLogMetricsCollector::with_config(MetricsCollectionConfig::default())
    }

    /// A collector with the given configuration.
    pub fn with_config(config: MetricsCollectionConfig) -> (r: Self)
        ensures
            r.wf(),
            r.spec_metrics().is_zero(),
            r.spec_detailed().len() == 0,
            r.spec_config() == config,
            r.spec_metadata().name@ == "default"@,
            r.spec_metadata().version@ == "1.0.0"@,
            r.spec_metadata().description@ == "Default log metrics collector"@,
            r.spec_metadata().supported_metrics@.len() == 6,
    {
        let mut supported: Vec<String> = Vec::new();
        supported.push(owned("total_logs"));
        supported.push(owned("logs_by_level"));
        supported.push(owned("logs_by_target"));
        supported.push(owned("error_rate"));
        supported.push(owned("average_size"));
        supported.push(owned("performance_ms"));
        let metadata = MetricsMetadata {
            name: owned("default"),
            version: owned("1.0.0"),
            description: owned("Default log metrics collector"),
            supported_metrics: supported,
        };
        DefaultLogMetricsCollector {
            metrics: LogMetrics::new(),
            detailed_metrics: Vec::new(),
            collection_config: config,
            metadata,
        }
    }

    /// Counts a record seen at `now`, by its message's size in bytes: in the
    /// overall counts, and, where per-target or per-level collection is on,
    /// in the detailed entry of its target and level (created at `now` if
    /// new).
    pub fn record_log(&mut self, record: &SimpleLogRecord, now: i64)
        requires
            old(self).wf(),
        ensures
            final(self).wf(),
            final(self).spec_config() == old(self).spec_config(),
            final(self).spec_metadata() == old(self).spec_metadata(),
            ({
                let size = utf8_len(record.message@) as u64;
                let lvl = record.level;
                let m0 = old(self).spec_metrics();
                let m1 = final(self).spec_metrics();
                &&& m1.total_logs == wadd(m0.total_logs, 1)
                &&& m1.total_bytes == wadd(m0.total_bytes, size)
                &&& m1.last_log == Some(now)
                &&& m1.first_log == if m0.first_log is None { Some(now) } else { m0.first_log }
                &&& as_map(m1.logs_by_level@) == as_map(m0.logs_by_level@).insert(level_key(lvl),
                    wadd(count_of(as_map(m0.logs_by_level@), level_key(lvl)), 1))
                &&& as_map(m1.logs_by_target@) == as_map(m0.logs_by_target@).insert(record.target@,
                    wadd(count_of(as_map(m0.logs_by_target@), record.target@), 1))
                &&& m1.errors == if lvl == LogLevel::Error || lvl == LogLevel::Fatal { wadd(m0.errors, 1) } else { m0.errors }
                &&& m1.warnings == if lvl == LogLevel::Warn { wadd(m0.warnings, 1) } else { m0.warnings }
            }),
            ({
                let size = utf8_len(record.message@) as u64;
                let key = detail_key(record.target@, record.level);
                let d0 = as_map(old(self).spec_detailed());
                let d1 = as_map(final(self).spec_detailed());
                if old(self).spec_config().collect_per_target || old(self).spec_config().collect_per_level {
                    &&& d1.dom() == d0.dom().insert(key)
                    &&& forall|k: Seq<char>| k != key && #[trigger] d0.contains_key(k) ==> d1[k] == d0[k]
                    &&& d1[key].count == wadd(if d0.contains_key(key) { d0[key].count } else { 0 }, 1)
                    &&& d1[key].total_size == wadd(if d0.contains_key(key) { d0[key].total_size } else { 0 }, size)
                    &&& d1[key].last_seen == now
                    &&& d1[key].first_seen == if d0.contains_key(key) { d0[key].first_seen } else { now }
                    &&& d1[key].error_count == if d0.contains_key(key) { d0[key].error_count } else { 0 }
                    &&& d1[key].target@ == if d0.contains_key(key) { d0[key].target@ } else { record.target@ }
                    &&& d1[key].level == if d0.contains_key(key) { d0[key].level } else { record.level }
                } else {
                    d1 == d0
                }
            }),
    {
        let n = byte_len(record.message.as_str());
        let size = n as u64;
        self.metrics.record_log(record.level, record.target.as_str(), size, now);
        if self.collection_config.collect_per_target || self.collection_config.collect_per_level {
            let mut key = record.target.clone();
            push_str(&mut key, ":");
            push_str(&mut key, record.level.as_str());
            let taken = crate::assoc::remove_value(&mut self.detailed_metrics, key.as_str());
            let mut entry = match taken {
                Some(d) => d,
                None => DetailedLogMetrics::new(record.target.clone(), record.level, now),
            };
            entry.record_log(size, now);
            insert_value(&mut self.detailed_metrics, key, entry);
        }
    }

    /// A copy of the overall counts.
    pub fn get_metrics(&self) -> (r: LogMetrics)
        requires
            self.wf(),
        ensures
            r.wf(),
            r.same_as(self.spec_metrics()),
    {
        self.metrics.duplicate()
    }

    /// Forgets everything counted.
    pub fn reset_metrics(&mut self)
        ensures
            final(self).wf(),
            final(self).spec_metrics().is_zero(),
            final(self).spec_detailed().len() == 0,
            final(self).spec_config() == old(self).spec_config(),
            final(self).spec_metadata() == old(self).spec_metadata(),
    {
        self.metrics = LogMetrics::new();
        self.detailed_metrics = Vec::new();
    }

    /// The counts over the detailed entries of one target.
    pub fn get_target_metrics(&self, target: &str) -> (r: LogMetrics)
        ensures
            r.wf(),
            r.counts() == target_fold(self.spec_detailed(), target@),
    {
        let mut out = LogMetrics::new();
        let mut i: usize = 0;
        proof {
            assert(self.detailed_metrics@.subrange(0, 0) =~= Seq::<(String, DetailedLogMetrics)>::empty());
            assert(as_map(out.logs_by_level@) =~= Map::<Seq<char>, u64>::empty());
            assert(as_map(out.logs_by_target@) =~= Map::<Seq<char>, u64>::empty());
        }
        while i < self.detailed_metrics.len()
            invariant
                i <= self.detailed_metrics@.len(),
                out.wf(),
                out.counts() == target_fold(self.detailed_metrics@.subrange(0, i as int), target@),
            decreases self.detailed_metrics@.len() - i,
        {
            let ghost sub = self.detailed_metrics@.subrange(0, i + 1);
            proof {
                assert(sub.drop_last() =~= self.detailed_metrics@.subrange(0, i as int));
                assert(sub.last() == self.detailed_metrics@[i as int]);
            }
            let d = &self.detailed_metrics[i].1;
            if crate::text::str_eq(d.target.as_str(), target) {
                out.total_logs = wrapping_sum(out.total_logs, d.count);
                out.total_bytes = wrapping_sum(out.total_bytes, d.total_size);
                match out.first_log {
                    None => out.first_log = Some(d.first_seen),
                    Some(f) => if d.first_seen < f { out.first_log = Some(d.first_seen); },
                }
                match out.last_log {
                    None => out.last_log = Some(d.last_seen),
                    Some(l) => if d.last_seen > l { out.last_log = Some(d.last_seen); },
                }
                add_count(&mut out.logs_by_level, owned(level_key_str(d.level)), d.count);
                add_count(&mut out.logs_by_target, owned(target), d.count);
                out.errors = wrapping_sum(out.errors, d.error_count);
                let w: u64 = match d.level {
                    LogLevel::Warn => d.count,
                    _ => 0,
                };
                out.warnings = wrapping_sum(out.warnings, w);
            }
            i = i + 1;
        }
        assert(self.detailed_metrics@.subrange(0, i as int) =~= self.detailed_metrics@);
        out
    }

    /// The counts over the detailed entries of one level: logs, bytes,
    /// errors and (at the warning level) warnings.
    pub fn get_level_metrics(&self, level: LogLevel) -> (r: LogMetrics)
        ensures
            r.wf(),
            r.counts() == level_fold(self.spec_detailed(), level),
    {
        let mut out = LogMetrics::new();
        let mut i: usize = 0;
        proof {
            assert(self.detailed_metrics@.subrange(0, 0) =~= Seq::<(String, DetailedLogMetrics)>::empty());
            assert(as_map(out.logs_by_level@) =~= Map::<Seq<char>, u64>::empty());
            assert(as_map(out.logs_by_target@) =~= Map::<Seq<char>, u64>::empty());
        }
        while i < self.detailed_metrics.len()
            invariant
                i <= self.detailed_metrics@.len(),
                out.wf(),
                out.counts() == level_fold(self.detailed_metrics@.subrange(0, i as int), level),
            decreases self.detailed_metrics@.len() - i,
        {
            let ghost sub = self.detailed_metrics@.subrange(0, i + 1);
            proof {
                assert(sub.drop_last() =~= self.detailed_metrics@.subrange(0, i as int));
                assert(sub.last() == self.detailed_metrics@[i as int]);
            }
            let d = &self.detailed_metrics[i].1;
            if d.level == level {
                out.total_logs = wrapping_sum(out.total_logs, d.count);
                out.total_bytes = wrapping_sum(out.total_bytes, d.total_size);
                out.errors = wrapping_sum(out.errors, d.error_count);
                let w: u64 = match level {
                    LogLevel::Warn => d.count,
                    _ => 0,
                };
                out.warnings = wrapping_sum(out.warnings, w);
            }
            i = i + 1;
        }
        assert(self.detailed_metrics@.subrange(0, i as int) =~= self.detailed_metrics@);
        out
    }

    /// The collector's description.
    pub fn metadata(&self) -> (r: &MetricsMetadata)
        ensures
            *r == self.spec_metadata(),
    {
        &self.metadata
    }
}

impl Default for DefaultLogMetricsCollector {
    fn default() -> (r: Self)
        ensures
            r.wf(),
            r.spec_metrics().is_zero(),
            r.spec_detailed().len() == 0,
    {
        DefaultLogMetricsCollector::new()
    }
}

/// The total count per target over the detailed entries.
pub open spec fn target_totals(s: Seq<(String, DetailedLogMetrics)>) -> Map<Seq<char>, u64>
    decreases s.len(),
{
    if s.len() == 0 {
        Map::empty()
    } else {
        let m = target_totals(s.drop_last());
        let d = s.last().1;
        m.insert(d.target@, wadd(count_of(m, d.target@), d.count))
    }
}

/// The detailed entries last seen after `cutoff`, in order.
pub open spec fn seen_after(s: Seq<(String, DetailedLogMetrics)>, cutoff: i64) -> Seq<(String, DetailedLogMetrics)>
    decreases s.len(),
{
    if s.len() == 0 {
        Seq::empty()
    } else {
        let prev = seen_after(s.drop_last(), cutoff);
        if s.last().1.last_seen > cutoff { prev.push(s.last()) } else { prev }
    }
}

/// The number of `false` entries.
pub open spec fn count_unpicked(t: Seq<bool>) -> nat
    decreases t.len(),
{
    if t.len() == 0 {
        0
    } else {
        count_unpicked(t.drop_last()) + if !t.last() { 1nat } else { 0nat }
    }
}

proof fn lemma_unpicked_update(t: Seq<bool>, b: int)
    requires
        0 <= b < t.len(),
        !t[b],
    ensures
        count_unpicked(t.update(b, true)) + 1 == count_unpicked(t),
    decreases t.len(),
{
    let u = t.update(b, true);
    if b == t.len() - 1 {
        assert(u.drop_last() =~= t.drop_last());
    } else {
        lemma_unpicked_update(t.drop_last(), b);
        assert(u.drop_last() =~= t.drop_last().update(b, true));
    }
}

proof fn lemma_unpicked_none(t: Seq<bool>)
    requires
        forall|j: int| 0 <= j < t.len() ==> #[trigger] t[j],
    ensures
        count_unpicked(t) == 0,
    decreases t.len(),
{
    if t.len() > 0 {
        lemma_unpicked_none(t.drop_last());
    }
}

proof fn lemma_unpicked_all(n: nat)
    ensures
        count_unpicked(Seq::new(n, |j: int| false)) == n,
    decreases n,
{
    if n > 0 {
        lemma_unpicked_all((n - 1) as nat);
        assert(Seq::new(n, |j: int| false).drop_last() =~= Seq::new((n - 1) as nat, |j: int| false));
    }
}

/// The `limit` entries with the largest counts, largest first; among equal
/// counts any may come first.
pub fn top_counts(counts: &Vec<(String, u64)>, limit: usize) -> (r: Vec<(String, u64)>)
    requires
        keys_unique(counts@),
    ensures
        r@.len() == if limit < counts@.len() { limit as int } else { counts@.len() as int },
        keys_unique(r@),
        forall|i: int| 0 <= i < r@.len() ==> as_map(counts@).contains_key((#[trigger] r@[i]).0@)
            && as_map(counts@)[r@[i].0@] == r@[i].1,
        forall|i: int, j: int| 0 <= i < j < r@.len() ==> (#[trigger] r@[i]).1 >= (#[trigger] r@[j]).1,
        forall|k: Seq<char>, i: int| #[trigger] as_map(counts@).contains_key(k) && !crate::assoc::has_key(r@, k)
            && 0 <= i < r@.len() ==> as_map(counts@)[k] <= (#[trigger] r@[i]).1,
{
    let n = counts.len();
    let mut taken: Vec<bool> = Vec::new();
    let mut t: usize = 0;
    while t < n
        invariant
            t <= n,
            n == counts@.len(),
            taken@ =~= Seq::new(t as nat, |j: int| false),
        decreases n - t,
    {
        taken.push(false);
        t = t + 1;
    }
    proof {
        lemma_unpicked_all(n as nat);
    }
    let mut out: Vec<(String, u64)> = Vec::new();
    let ghost mut idx: Seq<int> = Seq::empty();
    let mut k: usize = 0;
    while k < limit && k < n
        invariant
            n == counts@.len(),
            keys_unique(counts@),
            taken@.len() == n,
            k <= n,
            k <= limit,
            out@.len() == k,
            idx.len() == k,
            count_unpicked(taken@) == n - k,
            forall|a: int| 0 <= a < k ==> 0 <= #[trigger] idx[a] < n && taken@[idx[a]]
                && out@[a].0@ == counts@[idx[a]].0@ && out@[a].1 == counts@[idx[a]].1,
            forall|a: int, b: int| 0 <= a < k && 0 <= b < k && a != b ==> #[trigger] idx[a] != #[trigger] idx[b],
            forall|j: int| 0 <= j < n && #[trigger] taken@[j] ==> exists|a: int| 0 <= a < k && idx[a] == j,
            forall|a: int, b: int| 0 <= a < b < k ==> (#[trigger] out@[a]).1 >= (#[trigger] out@[b]).1,
            forall|j: int, a: int| 0 <= j < n && !(#[trigger] taken@[j]) && 0 <= a < k ==> counts@[j].1 <= (#[trigger] out@[a]).1,
        decreases n - k,
    {
        let mut best: usize = n;
        let mut j: usize = 0;
        while j < n
            invariant
                n == counts@.len(),
                taken@.len() == n,
                j <= n,
                best == n || (best < j && !taken@[best as int]),
                best < n ==> forall|x: int| 0 <= x < j && !(#[trigger] taken@[x]) ==> counts@[x].1 <= counts@[best as int].1,
                best == n ==> forall|x: int| 0 <= x < j ==> #[trigger] taken@[x],
            decreases n - j,
        {
            if !taken[j] {
                if best == n || counts[j].1 > counts[best].1 {
                    best = j;
                }
            }
            j = j + 1;
        }
        proof {
            if best == n {
                lemma_unpicked_none(taken@);
                assert(false);
            }
            lemma_unpicked_update(taken@, best as int);
        }
        let ghost old_taken = taken@;
        taken.set(best, true);
        out.push((counts[best].0.clone(), counts[best].1));
        proof {
            let old_idx = idx;
            idx = idx.push(best as int);
            assert forall|x: int| 0 <= x < n && #[trigger] taken@[x] implies exists|a: int| 0 <= a < k + 1 && idx[a] == x by {
                if x == best as int {
                    assert(0 <= k < k + 1 && idx[k as int] == x);
                } else {
                    assert(old_taken[x]);
                    let a = choose|a: int| 0 <= a < k && old_idx[a] == x;
                    assert(idx[a] == x);
                }
            }
        }
        k = k + 1;
    }
    proof {
        assert forall|a: int, b: int| 0 <= a < out@.len() && 0 <= b < out@.len() && a != b implies out@[a].0@ != out@[b].0@ by {
            assert(idx[a] != idx[b]);
        }
        assert forall|i: int| 0 <= i < out@.len() implies as_map(counts@).contains_key((#[trigger] out@[i]).0@)
            && as_map(counts@)[out@[i].0@] == out@[i].1 by {
            crate::assoc::lemma_index_of_key(counts@, idx[i]);
        }
        assert forall|kk: Seq<char>, i: int| #[trigger] as_map(counts@).contains_key(kk) && !crate::assoc::has_key(out@, kk)
            && 0 <= i < out@.len() implies as_map(counts@)[kk] <= (#[trigger] out@[i]).1 by {
            let j = crate::assoc::index_of_key(counts@, kk);
            assert(counts@[j].0@ == kk);
            crate::assoc::lemma_index_of_key(counts@, j);
            if taken@[j] {
                let a = choose|a: int| 0 <= a < out@.len() && idx[a] == j;
                assert(out@[a].0@ == kk);
            }
        }
    }
    out
}

impl DefaultLogMetricsCollector {
    /// The `limit` targets with the most logs, most first.
    pub fn get_top_targets(&self, limit: usize) -> (r: Vec<(String, u64)>)
        ensures
            ({
                let m = target_totals(self.spec_detailed());
                &&& r@.len() == if limit < m.dom().len() { limit as int } else { m.dom().len() as int }
                &&& keys_unique(r@)
                &&& forall|i: int| 0 <= i < r@.len() ==> m.contains_key((#[trigger] r@[i]).0@) && m[r@[i].0@] == r@[i].1
                &&& forall|i: int, j: int| 0 <= i < j < r@.len() ==> (#[trigger] r@[i]).1 >= (#[trigger] r@[j]).1
                &&& forall|k: Seq<char>, i: int| #[trigger] m.contains_key(k) && !crate::assoc::has_key(r@, k)
                    && 0 <= i < r@.len() ==> m[k] <= (#[trigger] r@[i]).1
            }),
    {
        let mut totals: Vec<(String, u64)> = Vec::new();
        let mut i: usize = 0;
        proof {
            assert(self.detailed_metrics@.subrange(0, 0) =~= Seq::<(String, DetailedLogMetrics)>::empty());
            assert(as_map(totals@) =~= Map::<Seq<char>, u64>::empty());
        }
        while i < self.detailed_metrics.len()
            invariant
                i <= self.detailed_metrics@.len(),
                keys_unique(totals@),
                as_map(totals@) == target_totals(self.detailed_metrics@.subrange(0, i as int)),
            decreases self.detailed_metrics@.len() - i,
        {
            let ghost sub = self.detailed_metrics@.subrange(0, i + 1);
            proof {
                assert(sub.drop_last() =~= self.detailed_metrics@.subrange(0, i as int));
                assert(sub.last() == self.detailed_metrics@[i as int]);
            }
            let d = &self.detailed_metrics[i].1;
            add_count(&mut totals, d.target.clone(), d.count);
            i = i + 1;
        }
        assert(self.detailed_metrics@.subrange(0, i as int) =~= self.detailed_metrics@);
        proof {
            crate::assoc::lemma_unique_keys_len(totals@);
        }
        top_counts(&totals, limit)
    }

    /// Forgets the detailed entries last seen `max_history_hours` or longer
    /// before `now`.
    pub fn cleanup_old_metrics(&mut self, now: i64)
        requires
            old(self).wf(),
            old(self).spec_config().max_history_hours * 3_600_000 <= i64::MAX,
            now - old(self).spec_config().max_history_hours * 3_600_000 >= i64::MIN,
        ensures
            final(self).wf(),
            final(self).spec_detailed() == seen_after(old(self).spec_detailed(),
                (now - old(self).spec_config().max_history_hours * 3_600_000) as i64),
            final(self).spec_metrics() == old(self).spec_metrics(),
            final(self).spec_config() == old(self).spec_config(),
            final(self).spec_metadata() == old(self).spec_metadata(),
    {
        let span: i64 = (self.collection_config.max_history_hours * 3_600_000) as i64;
        let cutoff: i64 = now - span;
        let ghost orig = self.detailed_metrics@;
        let mut rest: Vec<(String, DetailedLogMetrics)> = Vec::new();
        std::mem::swap(&mut rest, &mut self.detailed_metrics);
        let mut kept: Vec<(String, DetailedLogMetrics)> = Vec::new();
        let ghost mut idx: Seq<int> = Seq::empty();
        let mut i: usize = 0;
        assert(orig.subrange(0, 0) =~= Seq::<(String, DetailedLogMetrics)>::empty());
        assert(orig.len() == rest.len());
        while rest.len() > 0
            invariant
                i <= orig.len(),
                orig.len() <= usize::MAX,
                rest@ == orig.skip(i as int),
                kept@ == seen_after(orig.subrange(0, i as int), cutoff),
                keys_unique(orig),
                idx.len() == kept@.len(),
                forall|a: int, b: int| 0 <= a < b < idx.len() ==> idx[a] < idx[b],
                forall|a: int| 0 <= a < idx.len() ==> 0 <= #[trigger] idx[a] < i && kept@[a] == orig[idx[a]],
            decreases rest@.len(),
        {
            let e = rest.remove(0);
            proof {
                assert(e == orig[i as int]);
                let sub = orig.subrange(0, i + 1);
                assert(sub.drop_last() =~= orig.subrange(0, i as int));
                assert(sub.last() == e);
                assert(rest@ =~= orig.skip(i + 1));
            }
            if e.1.last_seen > cutoff {
                kept.push(e);
                proof {
                    idx = idx.push(i as int);
                }
            }
            i = i + 1;
        }
        assert(orig.subrange(0, i as int) =~= orig);
        assert(keys_unique(kept@)) by {
            assert forall|a: int, b: int| 0 <= a < kept@.len() && 0 <= b < kept@.len() && a != b implies kept@[a].0@ != kept@[b].0@ by {
                if a < b {
                    assert(idx[a] < idx[b]);
                } else {
                    assert(idx[b] < idx[a]);
                }
            }
        }
        self.detailed_metrics = kept;
    }
}

/// `m` with each count of `s` added to the count of its key.
pub open spec fn merge_counts(m: Map<Seq<char>, u64>, s: Seq<(String, u64)>) -> Map<Seq<char>, u64>
    decreases s.len(),
{
    if s.len() == 0 {
        m
    } else {
        let p = merge_counts(m, s.drop_last());
        p.insert(s.last().0@, wadd(count_of(p, s.last().0@), s.last().1))
    }
}

/// The earlier of two optional instants.
pub open spec fn earliest(a: Option<i64>, b: Option<i64>) -> Option<i64> {
    match b {
        None => a,
        Some(l) => match a {
            None => Some(l),
            Some(e) => if l < e { Some(l) } else { a },
        },
    }
}

/// The later of two optional instants.
pub open spec fn latest(a: Option<i64>, b: Option<i64>) -> Option<i64> {
    match b {
        None => a,
        Some(l) => match a {
            None => Some(l),
            Some(e) => if l > e { Some(l) } else { a },
        },
    }
}

/// The metrics of a list summed: counts added, per-level and per-target
/// counts merged, the earliest first and the latest last instant.
pub open spec fn sum_fold(list: Seq<LogMetrics>) -> MetricsView
    decreases list.len(),
{
    if list.len() == 0 {
        zero_view()
    } else {
        let v = sum_fold(list.drop_last());
        let m = list.last();
        MetricsView {
            total_logs: wadd(v.total_logs, m.total_logs),
            total_bytes: wadd(v.total_bytes, m.total_bytes),
            errors: wadd(v.errors, m.errors),
            warnings: wadd(v.warnings, m.warnings),
            first_log: earliest(v.first_log, m.first_log),
            last_log: latest(v.last_log, m.last_log),
            by_level: merge_counts(v.by_level, m.logs_by_level@),
            by_target: merge_counts(v.by_target, m.logs_by_target@),
        }
    }
}

/// Adds each count of `src` to `dst`.
fn merge_into(dst: &mut Vec<(String, u64)>, src: &Vec<(String, u64)>)
    requires
        keys_unique(old(dst)@),
    ensures
        keys_unique(final(dst)@),
        as_map(final(dst)@) == merge_counts(as_map(old(dst)@), src@),
{
    let ghost base = as_map(dst@);
    let mut i: usize = 0;
    assert(src@.subrange(0, 0) =~= Seq::<(String, u64)>::empty());
    while i < src.len()
        invariant
            i <= src@.len(),
            keys_unique(dst@),
            as_map(dst@) == merge_counts(base, src@.subrange(0, i as int)),
        decreases src@.len() - i,
    {
        let ghost sub = src@.subrange(0, i + 1);
        proof {
            assert(sub.drop_last() =~= src@.subrange(0, i as int));
            assert(sub.last() == src@[i as int]);
        }
        add_count(dst, src[i].0.clone(), src[i].1);
        i = i + 1;
    }
    assert(src@.subrange(0, i as int) =~= src@);
}

/// Combines the metrics of several collectors.
pub struct MetricsAggregator {
    aggregation_mode: AggregationMode,
    metadata: MetricsMetadata,
}

impl MetricsAggregator {
    /// How the metrics combine.
    pub closed spec fn spec_mode(&self) -> AggregationMode {
        self.aggregation_mode
    }

    /// The aggregator's description.
    pub closed spec fn spec_metadata(&self) -> MetricsMetadata {
        self.metadata
    }

    /// An aggregator in the given mode.
    pub fn new(mode: AggregationMode) -> (r: Self)
        ensures
            r.spec_mode() == mode,
            r.spec_metadata().name@ == "aggregator"@,
            r.spec_metadata().version@ == "1.0.0"@,
            r.spec_metadata().description@ == "Metrics aggregator with "@ + (match mode {
                AggregationMode::Sum => "Sum"@,
                AggregationMode::Average => "Average"@,
                AggregationMode::Max => "Max"@,
            }) + " mode"@,
            r.spec_metadata().supported_metrics@.len() == 1,
            r.spec_metadata().supported_metrics@[0]@ == "aggregated"@,
    {
        let mut description = owned("Metrics aggregator with ");
        push_str(&mut description, match mode {
            AggregationMode::Sum => "Sum",
            AggregationMode::Average => "Average",
            AggregationMode::Max => "Max",
        });
        push_str(&mut description, " mode");
        let mut supported: Vec<String> = Vec::new();
        supported.push(owned("aggregated"));
        MetricsAggregator {
            aggregation_mode: mode,
            metadata: MetricsMetadata {
                name: owned("aggregator"),
                version: owned("1.0.0"),
                description,
                supported_metrics: supported,
            },
        }
    }

    /// The mode.
    pub fn mode(&self) -> (r: AggregationMode)
        ensures
            r == self.spec_mode(),
    {
        self.aggregation_mode
    }

    /// The aggregator's description.
    pub fn metadata(&self) -> (r: &MetricsMetadata)
        ensures
            *r == self.spec_metadata(),
    {
        &self.metadata
    }

    /// The metrics summed.
    pub fn aggregate_sum(list: &Vec<LogMetrics>) -> (r: LogMetrics)
        requires
            forall|i: int| 0 <= i < list@.len() ==> (#[trigger] list@[i]).wf(),
        ensures
            r.wf(),
            r.counts() == sum_fold(list@),
    {
        let mut out = LogMetrics::new();
        let mut i: usize = 0;
        proof {
            assert(list@.subrange(0, 0) =~= Seq::<LogMetrics>::empty());
            assert(as_map(out.logs_by_level@) =~= Map::<Seq<char>, u64>::empty());
            assert(as_map(out.logs_by_target@) =~= Map::<Seq<char>, u64>::empty());
        }
        while i < list.len()
            invariant
                i <= list@.len(),
                out.wf(),
                out.counts() == sum_fold(list@.subrange(0, i as int)),
            decreases list@.len() - i,
        {
            let ghost sub = list@.subrange(0, i + 1);
            proof {
                assert(sub.drop_last() =~= list@.subrange(0, i as int));
                assert(sub.last() == list@[i as int]);
            }
            let m = &list[i];
            out.total_logs = wrapping_sum(out.total_logs, m.total_logs);
            out.total_bytes = wrapping_sum(out.total_bytes, m.total_bytes);
            out.errors = wrapping_sum(out.errors, m.errors);
            out.warnings = wrapping_sum(out.warnings, m.warnings);
            merge_into(&mut out.logs_by_level, &m.logs_by_level);
            merge_into(&mut out.logs_by_target, &m.logs_by_target);
            match m.first_log {
                None => {},
                Some(l) => match out.first_log {
                    None => out.first_log = Some(l),
                    Some(e) => if l < e { out.first_log = Some(l); },
                },
            }
            match m.last_log {
                None => {},
                Some(l) => match out.last_log {
                    None => out.last_log = Some(l),
                    Some(e) => if l > e { out.last_log = Some(l); },
                },
            }
            i = i + 1;
        }
        assert(list@.subrange(0, i as int) =~= list@);
        out
    }

    /// A copy of the metrics with the most logs (the last of those with
    /// the most); nothing counted for an empty list.
    pub fn aggregate_max(list: &Vec<LogMetrics>) -> (r: LogMetrics)
        requires
            forall|i: int| 0 <= i < list@.len() ==> (#[trigger] list@[i]).wf(),
        ensures
            r.wf(),
            list@.len() == 0 ==> r.is_zero(),
            list@.len() > 0 ==> exists|j: int| 0 <= j < list@.len() && r.same_as(#[trigger] list@[j])
                && (forall|i: int| 0 <= i < list@.len() ==> (#[trigger] list@[i]).total_logs <= list@[j].total_logs)
                && (forall|i: int| j < i < list@.len() ==> (#[trigger] list@[i]).total_logs < list@[j].total_logs),
    {
        if list.len() == 0 {
            return LogMetrics::new();
        }
        let mut best: usize = 0;
        let mut i: usize = 1;
        while i < list.len()
            invariant
                1 <= i <= list@.len(),
                best < i,
                forall|x: int| 0 <= x < i ==> (#[trigger] list@[x]).total_logs <= list@[best as int].total_logs,
                forall|x: int| best < x < i ==> (#[trigger] list@[x]).total_logs < list@[best as int].total_logs,
            decreases list@.len() - i,
        {
            if list[i].total_logs >= list[best].total_logs {
                best = i;
            }
            i = i + 1;
        }
        let r = list[best].duplicate();
        assert(r.same_as(list@[best as int]));
        r
    }
}

} // verus!



