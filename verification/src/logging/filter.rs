//! Log filters: by level, by target, by time range, by message pattern, by
//! structured field, composite filters and a rate limiter.

use vstd::prelude::*;
use crate::assoc::{distinct_strings, in_list, list_contains, set_insert};
use crate::clock::now_millis;
use crate::logging::traits::{lemma_rank_follows_severity, severity_order, FilterMetadata, LogFieldValue, LogLevel, SimpleLogRecord};
use crate::config::double::{dbl_is_nan, dbl_order_key, double_eq, order_key};
use crate::order::{lex_lt, str_lt};
use crate::text::{contains, contains_spec, ends_with, has_prefix, has_suffix, starts_with, str_eq};
use crate::patterns::{regex_match, regex_match_result};
use crate::text::{decimal_spec, owned, push_str, u64_to_decimal};

verus! {

/// A filter decides which log records are processed.
pub trait LogFilter {
    /// Whether the filter lets `record` through.
    spec fn spec_should_log(&self, record: &SimpleLogRecord) -> bool;

    /// Check if a log record should be processed
    fn should_log(&self, record: &SimpleLogRecord) -> (r: bool)
        ensures
            r == self.spec_should_log(record);

    /// The filter's description.
    spec fn spec_metadata(&self) -> FilterMetadata;

    /// Get filter metadata
    fn metadata(&self) -> (r: &FilterMetadata)
        ensures
            *r == self.spec_metadata();
}

/// The description of a filter: its name, version `1.0.0`, description
/// and type.
pub open spec fn filter_meta(m: FilterMetadata, name: Seq<char>, description: Seq<char>, filter_type: Seq<char>) -> bool {
    &&& m.name@ == name
    &&& m.version@ == "1.0.0"@
    &&& m.description@ == description
    &&& m.filter_type@ == filter_type
}

pub(crate) fn filter_metadata(name: &str, description: String, filter_type: &str) -> (m: FilterMetadata)
    ensures
        m.name@ == name@,
        m.description == description,
        m.filter_type@ == filter_type@,
        m.version@ == "1.0.0"@,
{
    FilterMetadata {
        name: owned(name),
        version: owned("1.0.0"),
        description,
        filter_type: owned(filter_type),
    }
}

/// Level filter for log level based filtering
pub struct LevelFilter {
    pub min_level: LogLevel,
    pub metadata: FilterMetadata,
}

impl LevelFilter {
    /// A filter that lets records at or above `min_level` through.
    pub fn new(min_level: LogLevel) -> (r: Self)
        ensures
            r.min_level == min_level,
            filter_meta(r.metadata, "level"@, "Filter logs at or above "@ + min_level.spec_as_str() + " level"@, "level"@),
    {
        let mut description = owned("Filter logs at or above ");
        push_str(&mut description, min_level.as_str());
        push_str(&mut description, " level");
        LevelFilter { min_level, metadata: filter_metadata("level", description, "level") }
    }
}

impl LogFilter for LevelFilter {
    open spec fn spec_should_log(&self, record: &SimpleLogRecord) -> bool {
        record.level.spec_rank() >= self.min_level.spec_rank()
    }

    fn should_log(&self, record: &SimpleLogRecord) -> (r: bool) {
        record.level.should_log(self.min_level)
    }

    open spec fn spec_metadata(&self) -> FilterMetadata {
        self.metadata
    }

    fn metadata(&self) -> (r: &FilterMetadata) {
        &self.metadata
    }
}

/// Target filter for logger name based filtering; the denied targets take
/// precedence over the allowed ones.
pub struct TargetFilter {
    pub allowed_targets: Vec<String>,
    pub denied_targets: Vec<String>,
    pub allow_by_default: bool,
    pub metadata: FilterMetadata,
}

impl TargetFilter {
    /// The target lists hold each target once.
    pub open spec fn wf(&self) -> bool {
        distinct_strings(self.allowed_targets@) && distinct_strings(self.denied_targets@)
    }

    /// A filter with empty lists that lets everything through.
    pub fn new() -> (r: Self)
        ensures
            r.wf(),
            r.allowed_targets@.len() == 0,
            r.denied_targets@.len() == 0,
            r.allow_by_default,
            filter_meta(r.metadata, "target"@, "Filter logs by target/logger name"@, "target"@),
    {
        TargetFilter {
            allowed_targets: Vec::new(),
            denied_targets: Vec::new(),
            allow_by_default: true,
            metadata: filter_metadata("target", owned("Filter logs by target/logger name"), "target"),
        }
    }

    /// Adds an allowed target.
    pub fn allow(self, target: String) -> (r: Self)
        requires
            self.wf(),
        ensures
            r.wf(),
            forall|x: Seq<char>| in_list(r.allowed_targets@, x) <==> in_list(self.allowed_targets@, x) || x == target@,
            r.denied_targets == self.denied_targets,
            r.allow_by_default == self.allow_by_default,
    {
        let mut s = self;
        s.add_allowed(target);
        s
    }

    /// Adds a denied target.
    pub fn deny(self, target: String) -> (r: Self)
        requires
            self.wf(),
        ensures
            r.wf(),
            forall|x: Seq<char>| in_list(r.denied_targets@, x) <==> in_list(self.denied_targets@, x) || x == target@,
            r.allowed_targets == self.allowed_targets,
            r.allow_by_default == self.allow_by_default,
    {
        let mut s = self;
        s.add_denied(target);
        s
    }

    /// Sets whether targets are allowed when no allowed list is given.
    pub fn allow_by_default(self, allow: bool) -> (r: Self)
        ensures
            r.allowed_targets == self.allowed_targets,
            r.denied_targets == self.denied_targets,
            r.allow_by_default == allow,
    {
        TargetFilter { allow_by_default: allow, ..self }
    }

    /// Adds an allowed target in place.
    pub fn add_allowed(&mut self, target: String)
        requires
            old(self).wf(),
        ensures
            final(self).wf(),
            forall|x: Seq<char>| in_list(final(self).allowed_targets@, x) <==> in_list(old(self).allowed_targets@, x) || x == target@,
            final(self).denied_targets == old(self).denied_targets,
            final(self).allow_by_default == old(self).allow_by_default,
    {
        set_insert(&mut self.allowed_targets, target);
    }

    /// Adds a denied target in place.
    pub fn add_denied(&mut self, target: String)
        requires
            old(self).wf(),
        ensures
            final(self).wf(),
            forall|x: Seq<char>| in_list(final(self).denied_targets@, x) <==> in_list(old(self).denied_targets@, x) || x == target@,
            final(self).allowed_targets == old(self).allowed_targets,
            final(self).allow_by_default == old(self).allow_by_default,
    {
        set_insert(&mut self.denied_targets, target);
    }
}

impl LogFilter for TargetFilter {
    open spec fn spec_should_log(&self, record: &SimpleLogRecord) -> bool {
        if in_list(self.denied_targets@, record.target@) {
            false
        } else if self.allowed_targets@.len() > 0 {
            in_list(self.allowed_targets@, record.target@)
        } else {
            self.allow_by_default
        }
    }

    fn should_log(&self, record: &SimpleLogRecord) -> (r: bool) {
        let target = record.target.as_str();
        if list_contains(&self.denied_targets, target) {
            return false;
        }
        if self.allowed_targets.len() > 0 {
            list_contains(&self.allowed_targets, target)
        } else {
            self.allow_by_default
        }
    }

    open spec fn spec_metadata(&self) -> FilterMetadata {
        self.metadata
    }

    fn metadata(&self) -> (r: &FilterMetadata) {
        &self.metadata
    }
}

/// Message filter for content-based filtering by regular expressions; the
/// exclude patterns take precedence. A pattern that is not a valid regular
/// expression matches nothing.
pub struct MessageFilter {
    pub include_patterns: Vec<String>,
    pub exclude_patterns: Vec<String>,
    pub metadata: FilterMetadata,
}

/// Some pattern of `patterns` matches `text`.
pub open spec fn any_pattern_matches(patterns: Seq<String>, text: Seq<char>) -> bool {
    exists|i: int| 0 <= i < patterns.len() && regex_match_result(#[trigger] patterns[i]@, text) == Some(true)
}

fn first_match(patterns: &Vec<String>, text: &str) -> (r: bool)
    ensures
        r == any_pattern_matches(patterns@, text@),
{
    let mut i: usize = 0;
    while i < patterns.len()
        invariant
            i <= patterns.len(),
            forall|j: int| 0 <= j < i ==> regex_match_result(#[trigger] patterns@[j]@, text@) != Some(true),
        decreases patterns.len() - i,
    {
        if regex_match(patterns[i].as_str(), text) == Some(true) {
            return true;
        }
        i = i + 1;
    }
    false
}

impl MessageFilter {
    /// A filter without patterns, which lets everything through.
    pub fn new() -> (r: Self)
        ensures
            r.include_patterns@.len() == 0,
            r.exclude_patterns@.len() == 0,
            filter_meta(r.metadata, "message"@, "Filter logs by message content patterns"@, "message"@),
    {
        MessageFilter {
            include_patterns: Vec::new(),
            exclude_patterns: Vec::new(),
            metadata: filter_metadata("message", owned("Filter logs by message content patterns"), "message"),
        }
    }

    /// Adds an include pattern.
    pub fn include_pattern(self, pattern: String) -> (r: Self)
        ensures
            r.include_patterns@ == self.include_patterns@.push(pattern),
            r.exclude_patterns == self.exclude_patterns,
    {
        let mut s = self;
        s.include_patterns.push(pattern);
        s
    }

    /// Adds an include pattern in place.
    pub fn add_include_pattern(&mut self, pattern: String)
        ensures
            final(self).include_patterns@ == old(self).include_patterns@.push(pattern),
            final(self).exclude_patterns == old(self).exclude_patterns,
            final(self).metadata == old(self).metadata,
    {
        self.include_patterns.push(pattern);
    }

    /// Adds an exclude pattern in place.
    pub fn add_exclude_pattern(&mut self, pattern: String)
        ensures
            final(self).exclude_patterns@ == old(self).exclude_patterns@.push(pattern),
            final(self).include_patterns == old(self).include_patterns,
            final(self).metadata == old(self).metadata,
    {
        self.exclude_patterns.push(pattern);
    }

    /// Adds an exclude pattern.
    pub fn exclude_pattern(self, pattern: String) -> (r: Self)
        ensures
            r.exclude_patterns@ == self.exclude_patterns@.push(pattern),
            r.include_patterns == self.include_patterns,
    {
        let mut s = self;
        s.exclude_patterns.push(pattern);
        s
    }
}

impl LogFilter for MessageFilter {
    open spec fn spec_should_log(&self, record: &SimpleLogRecord) -> bool {
        if any_pattern_matches(self.exclude_patterns@, record.message@) {
            false
        } else if self.include_patterns@.len() > 0 {
            any_pattern_matches(self.include_patterns@, record.message@)
        } else {
            true
        }
    }

    fn should_log(&self, record: &SimpleLogRecord) -> (r: bool) {
        let message = record.message.as_str();
        if first_match(&self.exclude_patterns, message) {
            return false;
        }
        if self.include_patterns.len() > 0 {
            first_match(&self.include_patterns, message)
        } else {
            true
        }
    }

    open spec fn spec_metadata(&self) -> FilterMetadata {
        self.metadata
    }

    fn metadata(&self) -> (r: &FilterMetadata) {
        &self.metadata
    }
}

/// Time-based filter for temporal log filtering; bounds are milliseconds
/// since the Unix epoch and inclusive.
pub struct TimeFilter {
    pub start_time: Option<i64>,
    pub end_time: Option<i64>,
    pub metadata: FilterMetadata,
}

impl TimeFilter {
    /// A filter without bounds.
    pub fn new() -> (r: Self)
        ensures
            r.start_time is None,
            r.end_time is None,
            filter_meta(r.metadata, "time"@, "Filter logs by timestamp range"@, "time"@),
    {
        TimeFilter {
            start_time: None,
            end_time: None,
            metadata: filter_metadata("time", owned("Filter logs by timestamp range"), "time"),
        }
    }

    /// Sets the earliest time let through.
    pub fn start_time(self, time: i64) -> (r: Self)
        ensures
            r.start_time == Some(time),
            r.end_time == self.end_time,
    {
        TimeFilter { start_time: Some(time), ..self }
    }

    /// Sets the latest time let through.
    pub fn end_time(self, time: i64) -> (r: Self)
        ensures
            r.end_time == Some(time),
            r.start_time == self.start_time,
    {
        TimeFilter { end_time: Some(time), ..self }
    }

    /// Sets both bounds.
    pub fn time_range(self, start: i64, end: i64) -> (r: Self)
        ensures
            r.start_time == Some(start),
            r.end_time == Some(end),
    {
        TimeFilter { start_time: Some(start), end_time: Some(end), ..self }
    }
}

impl LogFilter for TimeFilter {
    open spec fn spec_should_log(&self, record: &SimpleLogRecord) -> bool {
        &&& (self.start_time matches Some(s) ==> record.timestamp >= s)
        &&& (self.end_time matches Some(e) ==> record.timestamp <= e)
    }

    fn should_log(&self, record: &SimpleLogRecord) -> (r: bool) {
        if let Some(start) = self.start_time {
            if record.timestamp < start {
                return false;
            }
        }
        if let Some(end) = self.end_time {
            if record.timestamp > end {
                return false;
            }
        }
        true
    }

    open spec fn spec_metadata(&self) -> FilterMetadata {
        self.metadata
    }

    fn metadata(&self) -> (r: &FilterMetadata) {
        &self.metadata
    }
}

/// How a composite filter combines its filters.
#[derive(Debug, Clone, Copy, PartialEq, Eq, Structural)]
pub enum FilterOperation {
    /// All filters must pass
    And,
    /// At least one filter must pass
    Or,
    /// Negates the result of the first filter
    Not,
}

/// Composite filter that combines filters of one kind.
pub struct CompositeFilter<F> {
    pub filters: Vec<F>,
    pub operation: FilterOperation,
    pub metadata: FilterMetadata,
}

impl<F: LogFilter> CompositeFilter<F> {
    /// A composite without filters.
    pub fn new(operation: FilterOperation) -> (r: Self)
        ensures
            r.filters@.len() == 0,
            r.operation == operation,
            filter_meta(r.metadata, "composite"@, "Composite filter with "@ + match operation {
                FilterOperation::And => "And"@,
                FilterOperation::Or => "Or"@,
                FilterOperation::Not => "Not"@,
            } + " operation"@, "composite"@),
    {
        let mut description = owned("Composite filter with ");
        push_str(&mut description, match operation {
            FilterOperation::And => "And",
            FilterOperation::Or => "Or",
            FilterOperation::Not => "Not",
        });
        push_str(&mut description, " operation");
        CompositeFilter {
            filters: Vec::new(),
            operation,
            metadata: filter_metadata("composite", description, "composite"),
        }
    }

    /// Adds a filter.
    pub fn add_filter(self, filter: F) -> (r: Self)
        ensures
            r.filters@ == self.filters@.push(filter),
            r.operation == self.operation,
    {
        let mut s = self;
        s.filters.push(filter);
        s
    }

    /// Replaces the filters.
    pub fn with_filters(self, filters: Vec<F>) -> (r: Self)
        ensures
            r.filters == filters,
            r.operation == self.operation,
    {
        CompositeFilter { filters, ..self }
    }
}

impl<F: LogFilter> LogFilter for CompositeFilter<F> {
    open spec fn spec_should_log(&self, record: &SimpleLogRecord) -> bool {
        match self.operation {
            FilterOperation::And => forall|i: int| 0 <= i < self.filters@.len()
                ==> #[trigger] self.filters@[i].spec_should_log(record),
            FilterOperation::Or => exists|i: int| 0 <= i < self.filters@.len()
                && #[trigger] self.filters@[i].spec_should_log(record),
            FilterOperation::Not => self.filters@.len() == 0 || !self.filters@[0].spec_should_log(record),
        }
    }

    fn should_log(&self, record: &SimpleLogRecord) -> (r: bool) {
        match self.operation {
            FilterOperation::And => {
                let mut i: usize = 0;
                while i < self.filters.len()
                    invariant
                        i <= self.filters@.len(),
                        self.operation == FilterOperation::And,
                        forall|j: int| 0 <= j < i ==> #[trigger] self.filters@[j].spec_should_log(record),
                    decreases self.filters@.len() - i,
                {
                    if !self.filters[i].should_log(record) {
                        assert(!self.filters@[i as int].spec_should_log(record));
                        return false;
                    }
                    i = i + 1;
                }
                true
            },
            FilterOperation::Or => {
                let mut i: usize = 0;
                while i < self.filters.len()
                    invariant
                        i <= self.filters@.len(),
                        self.operation == FilterOperation::Or,
                        forall|j: int| 0 <= j < i ==> !#[trigger] self.filters@[j].spec_should_log(record),
                    decreases self.filters@.len() - i,
                {
                    if self.filters[i].should_log(record) {
                        assert(self.filters@[i as int].spec_should_log(record));
                        return true;
                    }
                    i = i + 1;
                }
                false
            },
            FilterOperation::Not => {
                if self.filters.len() > 0 {
                    !self.filters[0].should_log(record)
                } else {
                    true
                }
            },
        }
    }

    open spec fn spec_metadata(&self) -> FilterMetadata {
        self.metadata
    }

    fn metadata(&self) -> (r: &FilterMetadata) {
        &self.metadata
    }
}

/// The current rate-limiting window.
#[derive(Debug, Clone, Copy)]
pub struct RateLimitWindow {
    pub start_time: i64,
    pub log_count: u32,
    pub dropped_count: u64,
}

/// Rate-limiting filter to prevent log spam: at most `max_logs_per_window`
/// records pass per window (the first record of a fresh window always
/// passes), the rest are dropped and counted.
pub struct RateLimitFilter {
    pub max_logs_per_window: u32,
    pub window_duration_ms: u64,
    pub current_window: RateLimitWindow,
    pub metadata: FilterMetadata,
}

/// Milliseconds from `start` to `t`, as an unsigned count; a time before
/// the start wraps around to a very large count.
pub open spec fn elapsed_ms(start: i64, t: i64) -> u64 {
    (t - start) as u64
}

impl RateLimitFilter {
    /// The window's count is within the limit, or is the single record
    /// that opened a window with a zero limit.
    pub open spec fn wf(&self) -> bool {
        self.current_window.log_count <= self.max_logs_per_window
            || self.current_window.log_count == 1
    }

    /// A limiter whose first window starts now.
    pub fn new(max_logs_per_window: u32, window_duration_ms: u64) -> (r: Self)
        ensures
            r.wf(),
            r.max_logs_per_window == max_logs_per_window,
            r.window_duration_ms == window_duration_ms,
            r.current_window.log_count == 0,
            r.current_window.dropped_count == 0,
            filter_meta(r.metadata, "rate_limit"@, "Rate limit filter: "@ + decimal_spec(max_logs_per_window as nat)
                + " logs per "@ + decimal_spec(window_duration_ms as nat) + "ms"@, "rate_limit"@),
    {
        let mut description = owned("Rate limit filter: ");
        let a = u64_to_decimal(max_logs_per_window as u64);
        push_str(&mut description, a.as_str());
        push_str(&mut description, " logs per ");
        let b = u64_to_decimal(window_duration_ms);
        push_str(&mut description, b.as_str());
        push_str(&mut description, "ms");
        RateLimitFilter {
            max_logs_per_window,
            window_duration_ms,
            current_window: RateLimitWindow { start_time: now_millis(), log_count: 0, dropped_count: 0 },
            metadata: filter_metadata("rate_limit", description, "rate_limit"),
        }
    }

    /// The number of records dropped in the current window history.
    pub fn get_dropped_count(&self) -> (r: u64)
        ensures
            r == self.current_window.dropped_count,
    {
        self.current_window.dropped_count
    }

    /// Resets the counters and starts a new window now.
    pub fn reset_counters(&mut self)
        ensures
            final(self).current_window.log_count == 0,
            final(self).current_window.dropped_count == 0,
            final(self).max_logs_per_window == old(self).max_logs_per_window,
            final(self).window_duration_ms == old(self).window_duration_ms,
            final(self).wf(),
    {
        self.current_window = RateLimitWindow { start_time: now_millis(), log_count: 0, dropped_count: 0 };
    }

    /// Decides on a record: an expired window restarts at the record's time
    /// and lets it through; otherwise the record passes while the window's
    /// count is below the limit, and is dropped and counted after.
    pub fn should_log(&mut self, record: &SimpleLogRecord) -> (r: bool)
        requires
            old(self).wf(),
            old(self).current_window.dropped_count < u64::MAX,
        ensures
            final(self).wf(),
            final(self).max_logs_per_window == old(self).max_logs_per_window,
            final(self).window_duration_ms == old(self).window_duration_ms,
            ({
                let w = old(self).current_window;
                let nw = final(self).current_window;
                if elapsed_ms(w.start_time, record.timestamp) >= old(self).window_duration_ms {
                    r && nw.start_time == record.timestamp && nw.log_count == 1
                        && nw.dropped_count == w.dropped_count
                } else if w.log_count < old(self).max_logs_per_window {
                    r && nw.start_time == w.start_time && nw.log_count == w.log_count + 1
                        && nw.dropped_count == w.dropped_count
                } else {
                    !r && nw.start_time == w.start_time && nw.log_count == w.log_count
                        && nw.dropped_count == w.dropped_count + 1
                }
            }),
    {
        let t = record.timestamp;
        let st = self.current_window.start_time;
        let diff: i128 = t as i128 - st as i128;
        let elapsed: u64 = diff as u64;
        assert(elapsed == elapsed_ms(st, t));
        if elapsed >= self.window_duration_ms {
            self.current_window.start_time = record.timestamp;
            self.current_window.log_count = 1;
            true
        } else if self.current_window.log_count < self.max_logs_per_window {
            self.current_window.log_count = self.current_window.log_count + 1;
            true
        } else {
            self.current_window.dropped_count = self.current_window.dropped_count + 1;
            false
        }
    }
}

/// How a field condition compares.
#[derive(Debug, Clone, Copy, PartialEq, Eq, Structural)]
pub enum FieldOperator {
    Equals,
    NotEquals,
    GreaterThan,
    LessThan,
    Contains,
    StartsWith,
    EndsWith,
    Exists,
    NotExists,
}

/// A condition on one structured field of a record.
#[derive(Debug)]
pub struct FieldCondition {
    pub field_name: String,
    pub operator: FieldOperator,
    pub value: LogFieldValue,
}

/// Equality of field values as their derived `==` decides it: floats as
/// IEEE-754 compares them, arrays item by item, objects of equal size with
/// each entry matched by an entry of the other with the same key and an
/// equal value.
pub open spec fn field_eq(a: LogFieldValue, b: LogFieldValue) -> bool
    decreases a, 0nat,
{
    match a {
        LogFieldValue::String(x) => b matches LogFieldValue::String(y) && x@ == y@,
        LogFieldValue::Integer(x) => b matches LogFieldValue::Integer(y) && x == y,
        LogFieldValue::Float(x) => b matches LogFieldValue::Float(y) && double_eq(x, y),
        LogFieldValue::Boolean(x) => b matches LogFieldValue::Boolean(y) && x == y,
        LogFieldValue::DateTime(x) => b matches LogFieldValue::DateTime(y) && x == y,
        LogFieldValue::Duration(x) => b matches LogFieldValue::Duration(y) && x == y,
        LogFieldValue::Array(x) => b matches LogFieldValue::Array(y) && x@.len() == y@.len()
            && forall|i: int| 0 <= i < x@.len() ==> field_eq(#[trigger] x@[i], y@[i]),
        LogFieldValue::Object(x) => b matches LogFieldValue::Object(y) && x@.len() == y@.len()
            && forall|i: int| 0 <= i < x@.len() ==> entry_in(y@, (#[trigger] x@[i]).0@, x@[i].1),
        LogFieldValue::Null => b is Null,
    }
}

/// Some entry of `y` has key `k` and a value equal to `v`.
pub open spec fn entry_in(y: Seq<(String, LogFieldValue)>, k: Seq<char>, v: LogFieldValue) -> bool
    decreases v, 1nat,
{
    exists|j: int| 0 <= j < y.len() && #[trigger] y[j].0@ == k && field_eq(v, y[j].1)
}

/// Whether two field values are equal.
pub fn values_equal(a: &LogFieldValue, b: &LogFieldValue) -> (r: bool)
    ensures
        r == field_eq(*a, *b),
    decreases *a,
{
    match (a, b) {
        (LogFieldValue::String(x), LogFieldValue::String(y)) => str_eq(x.as_str(), y.as_str()),
        (LogFieldValue::Integer(x), LogFieldValue::Integer(y)) => *x == *y,
        (LogFieldValue::Float(x), LogFieldValue::Float(y)) => crate::config::double::double_bits_eq(*x, *y),
        (LogFieldValue::Boolean(x), LogFieldValue::Boolean(y)) => *x == *y,
        (LogFieldValue::DateTime(x), LogFieldValue::DateTime(y)) => *x == *y,
        (LogFieldValue::Duration(x), LogFieldValue::Duration(y)) => *x == *y,
        (LogFieldValue::Array(x), LogFieldValue::Array(y)) => {
            if x.len() != y.len() {
                return false;
            }
            let mut i: usize = 0;
            while i < x.len()
                invariant
                    i <= x@.len(),
                    x@.len() == y@.len(),
                    *a == LogFieldValue::Array(*x),
                    *b == LogFieldValue::Array(*y),
                    forall|j: int| 0 <= j < i ==> field_eq(#[trigger] x@[j], y@[j]),
                decreases x@.len() - i,
            {
                proof {
                    assert(decreases_to!(*a => a->Array_0));
                    assert(decreases_to!(a->Array_0 => x@[i as int]));
                }
                if !values_equal(&x[i], &y[i]) {
                    return false;
                }
                i = i + 1;
            }
            assert(field_eq(*a, *b));
            true
        },
        (LogFieldValue::Object(x), LogFieldValue::Object(y)) => {
            if x.len() != y.len() {
                return false;
            }
            let mut i: usize = 0;
            while i < x.len()
                invariant
                    i <= x@.len(),
                    x@.len() == y@.len(),
                    *a == LogFieldValue::Object(*x),
                    *b == LogFieldValue::Object(*y),
                    forall|p: int| 0 <= p < i ==> entry_in(y@, (#[trigger] x@[p]).0@, x@[p].1),
                decreases x@.len() - i,
            {
                proof {
                    assert(decreases_to!(*a => a->Object_0));
                    assert(decreases_to!(a->Object_0 => x@[i as int]));
                    assert(decreases_to!(x@[i as int] => x@[i as int].1));
                }
                let mut found = false;
                let mut j: usize = 0;
                while j < y.len()
                    invariant
                        j <= y@.len(),
                        i < x@.len(),
                        *a == LogFieldValue::Object(*x),
                        decreases_to!(*a => x@[i as int].1),
                        !found ==> forall|q: int| 0 <= q < j ==> !(#[trigger] y@[q].0@ == x@[i as int].0@ && field_eq(x@[i as int].1, y@[q].1)),
                        found ==> entry_in(y@, x@[i as int].0@, x@[i as int].1),
                    decreases y@.len() - j,
                {
                    if !found && str_eq(y[j].0.as_str(), x[i].0.as_str()) && values_equal(&x[i].1, &y[j].1) {
                        found = true;
                        proof {
                            assert(y@[j as int].0@ == x@[i as int].0@);
                        }
                    }
                    j = j + 1;
                }
                if !found {
                    proof {
                        assert(!entry_in(y@, x@[i as int].0@, x@[i as int].1));
                        assert(!field_eq(*a, *b));
                    }
                    return false;
                }
                i = i + 1;
            }
            true
        },
        (LogFieldValue::Null, LogFieldValue::Null) => true,
        _ => false,
    }
}

/// The comparison of two field values: -1, 0 or 1 for integers, for
/// floats (0 where either is NaN) and for strings (in code point order);
/// 0 for anything else.
pub open spec fn compare_spec(a: LogFieldValue, b: LogFieldValue) -> int {
    match (a, b) {
        (LogFieldValue::Integer(x), LogFieldValue::Integer(y)) => if x < y { -1 } else if x == y { 0 } else { 1 },
        (LogFieldValue::Float(x), LogFieldValue::Float(y)) => if dbl_is_nan(x) || dbl_is_nan(y) {
            0
        } else if dbl_order_key(x) < dbl_order_key(y) {
            -1
        } else if dbl_order_key(x) == dbl_order_key(y) {
            0
        } else {
            1
        },
        (LogFieldValue::String(x), LogFieldValue::String(y)) => if lex_lt(x@, y@) { -1 } else if x@ == y@ { 0 } else { 1 },
        _ => 0,
    }
}

/// Compares two field values.
pub fn compare_values(a: &LogFieldValue, b: &LogFieldValue) -> (r: i32)
    ensures
        r == compare_spec(*a, *b),
{
    match (a, b) {
        (LogFieldValue::Integer(x), LogFieldValue::Integer(y)) => if *x < *y { -1 } else if *x == *y { 0 } else { 1 },
        (LogFieldValue::Float(x), LogFieldValue::Float(y)) => match (order_key(*x), order_key(*y)) {
            (Some(p), Some(q)) => if p < q { -1 } else if p == q { 0 } else { 1 },
            _ => 0,
        },
        (LogFieldValue::String(x), LogFieldValue::String(y)) => {
            if str_lt(x.as_str(), y.as_str()) {
                -1
            } else if str_eq(x.as_str(), y.as_str()) {
                0
            } else {
                1
            }
        },
        _ => 0,
    }
}

/// Whether a condition holds of a field's value.
pub open spec fn condition_spec(v: LogFieldValue, op: FieldOperator, c: LogFieldValue) -> bool {
    match op {
        FieldOperator::Equals => field_eq(v, c),
        FieldOperator::NotEquals => !field_eq(v, c),
        FieldOperator::GreaterThan => compare_spec(v, c) > 0,
        FieldOperator::LessThan => compare_spec(v, c) < 0,
        FieldOperator::Contains => v matches LogFieldValue::String(x) && c matches LogFieldValue::String(y) && contains_spec(x@, y@),
        FieldOperator::StartsWith => v matches LogFieldValue::String(x) && c matches LogFieldValue::String(y) && has_prefix(x@, y@),
        FieldOperator::EndsWith => v matches LogFieldValue::String(x) && c matches LogFieldValue::String(y) && has_suffix(x@, y@),
        FieldOperator::Exists => true,
        FieldOperator::NotExists => false,
    }
}

/// The value of the first field of a record named `k`.
pub open spec fn first_field(fields: Seq<(String, LogFieldValue)>, k: Seq<char>) -> Option<LogFieldValue>
    decreases fields.len(),
{
    if fields.len() == 0 {
        None
    } else if fields[0].0@ == k {
        Some(fields[0].1)
    } else {
        first_field(fields.drop_first(), k)
    }
}

/// Whether a condition holds of a record: of its field's value, or, where
/// the record lacks the field, when the condition asks for its absence.
pub open spec fn condition_holds(c: FieldCondition, record: SimpleLogRecord) -> bool {
    match first_field(record.fields@, c.field_name@) {
        Some(v) => condition_spec(v, c.operator, c.value),
        None => c.operator == FieldOperator::NotExists,
    }
}

/// The value of the first field named `k`.
fn lookup_first<'a>(fields: &'a Vec<(String, LogFieldValue)>, k: &str) -> (r: Option<&'a LogFieldValue>)
    ensures
        match r {
            Some(v) => first_field(fields@, k@) == Some(*v),
            None => first_field(fields@, k@) is None,
        },
{
    let mut i: usize = 0;
    assert(fields@.skip(0) =~= fields@);
    while i < fields.len()
        invariant
            i <= fields@.len(),
            first_field(fields@, k@) == first_field(fields@.skip(i as int), k@),
        decreases fields@.len() - i,
    {
        proof {
            assert(fields@.skip(i as int).drop_first() =~= fields@.skip(i + 1));
            assert(fields@.skip(i as int)[0] == fields@[i as int]);
        }
        if str_eq(fields[i].0.as_str(), k) {
            return Some(&fields[i].1);
        }
        i = i + 1;
    }
    None
}

/// Whether a condition holds of a field's value.
fn evaluate_condition(v: &LogFieldValue, c: &FieldCondition) -> (r: bool)
    ensures
        r == condition_spec(*v, c.operator, c.value),
{
    match c.operator {
        FieldOperator::Equals => values_equal(v, &c.value),
        FieldOperator::NotEquals => !values_equal(v, &c.value),
        FieldOperator::GreaterThan => compare_values(v, &c.value) > 0,
        FieldOperator::LessThan => compare_values(v, &c.value) < 0,
        FieldOperator::Contains => match (v, &c.value) {
            (LogFieldValue::String(x), LogFieldValue::String(y)) => contains(x.as_str(), y.as_str()),
            _ => false,
        },
        FieldOperator::StartsWith => match (v, &c.value) {
            (LogFieldValue::String(x), LogFieldValue::String(y)) => starts_with(x.as_str(), y.as_str()),
            _ => false,
        },
        FieldOperator::EndsWith => match (v, &c.value) {
            (LogFieldValue::String(x), LogFieldValue::String(y)) => ends_with(x.as_str(), y.as_str()),
            _ => false,
        },
        FieldOperator::Exists => true,
        FieldOperator::NotExists => false,
    }
}

/// Filters records by conditions on their structured fields: all of them
/// must hold, or (when not all are required) any.
pub struct FieldFilter {
    pub field_conditions: Vec<FieldCondition>,
    pub require_all_conditions: bool,
    pub metadata: FilterMetadata,
}

impl FieldFilter {
    /// A filter without conditions that requires all of them.
    pub fn new() -> (r: Self)
        ensures
            r.field_conditions@.len() == 0,
            r.require_all_conditions,
            filter_meta(r.metadata, "field"@, "Filter logs by structured field values"@, "field"@),
    {
        FieldFilter {
            field_conditions: Vec::new(),
            require_all_conditions: true,
            metadata: filter_metadata("field", owned("Filter logs by structured field values"), "field"),
        }
    }

    /// Adds a condition.
    pub fn condition(self, condition: FieldCondition) -> (r: Self)
        ensures
            r.field_conditions@ == self.field_conditions@.push(condition),
            r.require_all_conditions == self.require_all_conditions,
            r.metadata == self.metadata,
    {
        let mut s = self;
        s.field_conditions.push(condition);
        s
    }

    /// Whether all conditions must hold.
    pub fn require_all(self, require_all: bool) -> (r: Self)
        ensures
            r.field_conditions == self.field_conditions,
            r.require_all_conditions == require_all,
            r.metadata == self.metadata,
    {
        FieldFilter { require_all_conditions: require_all, ..self }
    }

    /// Adds a condition in place.
    pub fn add_condition(&mut self, condition: FieldCondition)
        ensures
            final(self).field_conditions@ == old(self).field_conditions@.push(condition),
            final(self).require_all_conditions == old(self).require_all_conditions,
            final(self).metadata == old(self).metadata,
    {
        self.field_conditions.push(condition);
    }
}

impl LogFilter for FieldFilter {
    open spec fn spec_should_log(&self, record: &SimpleLogRecord) -> bool {
        if self.field_conditions@.len() == 0 {
            true
        } else if self.require_all_conditions {
            forall|i: int| 0 <= i < self.field_conditions@.len() ==> condition_holds(#[trigger] self.field_conditions@[i], *record)
        } else {
            exists|i: int| 0 <= i < self.field_conditions@.len() && condition_holds(#[trigger] self.field_conditions@[i], *record)
        }
    }

    fn should_log(&self, record: &SimpleLogRecord) -> (r: bool) {
        if self.field_conditions.len() == 0 {
            return true;
        }
        let mut all = true;
        let mut any = false;
        let mut i: usize = 0;
        while i < self.field_conditions.len()
            invariant
                i <= self.field_conditions@.len(),
                all == forall|j: int| 0 <= j < i ==> condition_holds(#[trigger] self.field_conditions@[j], *record),
                any == exists|j: int| 0 <= j < i && condition_holds(#[trigger] self.field_conditions@[j], *record),
            decreases self.field_conditions@.len() - i,
        {
            let c = &self.field_conditions[i];
            let holds = match lookup_first(&record.fields, c.field_name.as_str()) {
                Some(v) => evaluate_condition(v, c),
                None => c.operator == FieldOperator::NotExists,
            };
            proof {
                assert(holds == condition_holds(self.field_conditions@[i as int], *record));
            }
            all = all && holds;
            any = any || holds;
            i = i + 1;
        }
        if self.require_all_conditions { all } else { any }
    }

    open spec fn spec_metadata(&self) -> FilterMetadata {
        self.metadata
    }

    fn metadata(&self) -> (r: &FilterMetadata) {
        &self.metadata
    }
}

impl Default for FieldFilter {
    fn default() -> (r: Self)
        ensures
            r.field_conditions@.len() == 0,
            r.require_all_conditions,
    {
        FieldFilter::new()
    }
}

/// A level filter lets a record through exactly when the record's level
/// comes at or after the filter's level in the severity order Trace, Debug,
/// Info, Warn, Error, Fatal.
pub proof fn lemma_level_filter_by_severity(f: LevelFilter, record: SimpleLogRecord, i: int, j: int)
    requires
        0 <= i < 6,
        0 <= j < 6,
        record.level == severity_order()[i],
        f.min_level == severity_order()[j],
    ensures
        f.spec_should_log(&record) <==> i >= j,
{
    lemma_rank_follows_severity(i, j);
}

/// A time filter with both ends lets a record through exactly when its
/// time lies between them, ends included.
pub proof fn lemma_time_filter_window(f: TimeFilter, record: SimpleLogRecord, start: i64, end: i64)
    requires
        f.start_time == Some(start),
        f.end_time == Some(end),
    ensures
        f.spec_should_log(&record) <==> start <= record.timestamp && record.timestamp <= end,
{
}

/// What a time filter lets through has no gaps: a record whose time lies
/// between the times of two records that pass passes too.
pub proof fn lemma_time_filter_convex(f: TimeFilter, a: SimpleLogRecord, b: SimpleLogRecord, c: SimpleLogRecord)
    requires
        f.spec_should_log(&a),
        f.spec_should_log(&c),
        a.timestamp <= b.timestamp,
        b.timestamp <= c.timestamp,
    ensures
        f.spec_should_log(&b),
{
}

/// A denied target is never logged, whatever the allowed list holds; with
/// a non-empty allowed list, a target outside it is not logged either.
pub proof fn lemma_target_filter_denial_wins(f: TargetFilter, record: SimpleLogRecord)
    ensures
        in_list(f.denied_targets@, record.target@) ==> !f.spec_should_log(&record),
        f.allowed_targets@.len() > 0 && !in_list(f.allowed_targets@, record.target@) ==> !f.spec_should_log(&record),
        f.allowed_targets@.len() > 0 && !in_list(f.denied_targets@, record.target@)
            && in_list(f.allowed_targets@, record.target@) ==> f.spec_should_log(&record),
{
}

} // verus!

