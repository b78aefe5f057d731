//! Query performance counters: how many queries, their total and average
//! duration (in nanoseconds) and how many were slow.

use vstd::prelude::*;
use crate::api::performance::{divide_duration, duration_quotient, NANOS_PER_SEC};
use crate::clock::now_millis;

verus! {

/// A query is slow when it takes longer than 100 milliseconds.
pub const SLOW_QUERY_NANOS: u128 = 100_000_000;

/// Counters of queries; durations in nanoseconds.
#[derive(Debug, Clone, Copy)]
pub struct PerformanceMetrics {
    pub query_count: u64,
    pub total_duration: u128,
    pub average_duration: u128,
    pub slow_queries: u64,
}

impl PerformanceMetrics {
    /// No query counted.
    pub fn new() -> (r: Self)
        ensures
            r.query_count == 0 && r.total_duration == 0 && r.average_duration == 0 && r.slow_queries == 0,
    {
        PerformanceMetrics { query_count: 0, total_duration: 0, average_duration: 0, slow_queries: 0 }
    }

    /// Counts a query of `duration` nanoseconds: the average is the total
    /// divided by the count (taken as a 32-bit number), as durations
    /// divide; a query over 100 milliseconds counts as slow.
    pub fn record_query(&mut self, duration: u128)
        requires
            old(self).query_count < u64::MAX,
            (old(self).total_duration + duration) / (NANOS_PER_SEC as int) <= u64::MAX,
            (old(self).query_count + 1) as u32 != 0,
            duration > SLOW_QUERY_NANOS ==> old(self).slow_queries < u64::MAX,
        ensures
            final(self).query_count == old(self).query_count + 1,
            final(self).total_duration == old(self).total_duration + duration,
            final(self).average_duration == duration_quotient(final(self).total_duration, final(self).query_count as u32),
            final(self).slow_queries == old(self).slow_queries + if duration > SLOW_QUERY_NANOS { 1int } else { 0int },
    {
        self.query_count = self.query_count + 1;
        self.total_duration = self.total_duration + duration;
        let divisor: u32 = self.query_count as u32;
        self.average_duration = divide_duration(self.total_duration, divisor);
        if duration > SLOW_QUERY_NANOS {
            self.slow_queries = self.slow_queries + 1;
        }
    }
}

impl Default for PerformanceMetrics {
    fn default() -> (r: Self)
        ensures
            r.query_count == 0 && r.total_duration == 0 && r.average_duration == 0 && r.slow_queries == 0,
    {
        PerformanceMetrics::new()
    }
}

/// Counts operations since it was started.
pub struct PerformanceTracker {
    start_time: i64,
    metrics: PerformanceMetrics,
}

impl PerformanceTracker {
    /// The counters.
    pub closed spec fn spec_metrics(&self) -> PerformanceMetrics {
        self.metrics
    }

    /// When it was started, in milliseconds since the Unix epoch.
    pub closed spec fn spec_start(&self) -> i64 {
        self.start_time
    }

    /// A tracker started now, with nothing counted.
    pub fn new() -> (r: Self)
        ensures
            r.spec_metrics().query_count == 0 && r.spec_metrics().total_duration == 0,
            r.spec_metrics().average_duration == 0 && r.spec_metrics().slow_queries == 0,
    {
        PerformanceTracker { start_time: now_millis(), metrics: PerformanceMetrics::new() }
    }

    /// Counts an operation of `duration` nanoseconds.
    pub fn record_operation(&mut self, duration: u128)
        requires
            old(self).spec_metrics().query_count < u64::MAX,
            (old(self).spec_metrics().total_duration + duration) / (NANOS_PER_SEC as int) <= u64::MAX,
            (old(self).spec_metrics().query_count + 1) as u32 != 0,
            duration > SLOW_QUERY_NANOS ==> old(self).spec_metrics().slow_queries < u64::MAX,
        ensures
            final(self).spec_start() == old(self).spec_start(),
            final(self).spec_metrics().query_count == old(self).spec_metrics().query_count + 1,
            final(self).spec_metrics().total_duration == old(self).spec_metrics().total_duration + duration,
            final(self).spec_metrics().average_duration == duration_quotient(final(self).spec_metrics().total_duration,
                final(self).spec_metrics().query_count as u32),
            final(self).spec_metrics().slow_queries == old(self).spec_metrics().slow_queries
                + if duration > SLOW_QUERY_NANOS { 1int } else { 0int },
    {
        self.metrics.record_query(duration);
    }

    /// The counters.
    pub fn get_metrics(&self) -> (r: &PerformanceMetrics)
        ensures
            *r == self.spec_metrics(),
    {
        &self.metrics
    }

    /// The milliseconds since the tracker was started, at `now`.
    pub fn elapsed_at(&self, now: i64) -> (r: i64)
        requires
            i64::MIN <= now - self.spec_start() <= i64::MAX,
        ensures
            r == now - self.spec_start(),
    {
        now - self.start_time
    }
}

} // verus!
