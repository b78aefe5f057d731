//! Database health assessment: the issues raised by each probe of the
//! database, the overall verdict, and a bounded history of past checks.
//!
//! Ratios are held in per-mille (parts per thousand); instants in
//! milliseconds since the Unix epoch. The probes that talk to the database
//! (a `SELECT 1`, `PRAGMA integrity_check`, the page size and count) are run
//! by the caller, which hands their outcomes to `HealthChecker::check_health`.

use vstd::prelude::*;
use vstd::slice::slice_subrange;
use crate::clock::now_millis;
use crate::config::provider::opt_str_view;
use crate::text::{string_views, decimal_spec, u64_to_decimal, owned, push_str};

verus! {

/// How serious a health issue is.
#[derive(Debug, Clone, Copy, PartialEq, Eq, Structural)]
pub enum IssueSeverity {
    Critical,
    Warning,
    Info,
}

/// What part of the database a health issue concerns.
#[derive(Debug, Clone, Copy, PartialEq, Eq, Structural)]
pub enum IssueCategory {
    Connection,
    Performance,
    Integrity,
    Capacity,
    Configuration,
}

/// One problem found by a health check.
#[derive(Debug)]
pub struct HealthIssue {
    pub severity: IssueSeverity,
    pub category: IssueCategory,
    pub message: String,
    pub details: Option<String>,
    pub first_detected: i64,
    pub last_detected: i64,
    pub count: u32,
}

/// Severity, category, message, details and count of an issue.
pub type IssueView = (IssueSeverity, IssueCategory, Seq<char>, Option<Seq<char>>, u32);

impl HealthIssue {
    /// The issue without its timestamps.
    pub open spec fn issue_view(&self) -> IssueView {
        (self.severity, self.category, self.message@, opt_str_view(self.details), self.count)
    }

    /// A field-by-field copy.
    pub fn duplicate(&self) -> (r: HealthIssue)
        ensures
            r == *self,
    {
        HealthIssue {
            severity: self.severity,
            category: self.category,
            message: self.message.clone(),
            details: match &self.details {
                Some(d) => Some(d.clone()),
                None => None,
            },
            first_detected: self.first_detected,
            last_detected: self.last_detected,
            count: self.count,
        }
    }
}

/// The outcome of one health check. The uptime percentage is
/// `healthy_checks / checks_counted * 100` (100 when no check is counted)
/// and the error rate `issues_counted / checks_counted * 100` (0 when no
/// check is counted), both over the checks kept in the history.
#[derive(Debug)]
pub struct DatabaseHealth {
    pub is_healthy: bool,
    pub connection_count: u32,
    pub idle_connections: u32,
    pub active_connections: u32,
    pub response_time_ms: u64,
    pub last_check: i64,
    pub healthy_checks: u64,
    pub checks_counted: u64,
    pub issues_counted: u64,
    pub slow_queries_count: u64,
    pub issues: Vec<HealthIssue>,
}

impl DatabaseHealth {
    /// A healthy report with nothing measured, taken at `now`.
    pub open spec fn is_default_at(&self, now: i64) -> bool {
        &&& self.is_healthy
        &&& self.connection_count == 0
        &&& self.idle_connections == 0
        &&& self.active_connections == 0
        &&& self.response_time_ms == 0
        &&& self.last_check == now
        &&& self.healthy_checks == 0
        &&& self.checks_counted == 0
        &&& self.issues_counted == 0
        &&& self.slow_queries_count == 0
        &&& self.issues@.len() == 0
    }

    /// A field-by-field copy.
    pub fn duplicate(&self) -> (r: DatabaseHealth)
        ensures
            r.is_healthy == self.is_healthy,
            r.connection_count == self.connection_count,
            r.idle_connections == self.idle_connections,
            r.active_connections == self.active_connections,
            r.response_time_ms == self.response_time_ms,
            r.last_check == self.last_check,
            r.healthy_checks == self.healthy_checks,
            r.checks_counted == self.checks_counted,
            r.issues_counted == self.issues_counted,
            r.slow_queries_count == self.slow_queries_count,
            r.issues@ == self.issues@,
    {
        let mut issues: Vec<HealthIssue> = Vec::new();
        let mut i: usize = 0;
        while i < self.issues.len()
            invariant
                i <= self.issues@.len(),
                issues@ == self.issues@.subrange(0, i as int),
            decreases self.issues@.len() - i,
        {
            issues.push(self.issues[i].duplicate());
            i = i + 1;
        }
        assert(issues@ =~= self.issues@);
        DatabaseHealth {
            is_healthy: self.is_healthy,
            connection_count: self.connection_count,
            idle_connections: self.idle_connections,
            active_connections: self.active_connections,
            response_time_ms: self.response_time_ms,
            last_check: self.last_check,
            healthy_checks: self.healthy_checks,
            checks_counted: self.checks_counted,
            issues_counted: self.issues_counted,
            slow_queries_count: self.slow_queries_count,
            issues,
        }
    }
}

impl Default for DatabaseHealth {
    /// A healthy report with nothing measured, taken now.
    fn default() -> (r: DatabaseHealth)
        ensures
            r.is_default_at(r.last_check),
    {
        DatabaseHealth {
            is_healthy: true,
            connection_count: 0,
            idle_connections: 0,
            active_connections: 0,
            response_time_ms: 0,
            last_check: now_millis(),
            healthy_checks: 0,
            checks_counted: 0,
            issues_counted: 0,
            slow_queries_count: 0,
            issues: Vec::new(),
        }
    }
}

/// Limits beyond which a check raises an issue. Ratios are per-mille:
/// 50 is 5 %, 800 is 80 %, 995 is 99.5 %.
#[derive(Debug, Clone, Copy)]
pub struct HealthThresholds {
    pub max_response_time_ms: u64,
    pub max_error_rate_permille: u64,
    pub max_connection_usage_permille: u64,
    pub min_uptime_permille: u64,
    pub slow_query_threshold_ms: u64,
}

impl HealthThresholds {
    /// One second, 5 %, 80 %, 99.5 % and 500 ms.
    pub open spec fn default_spec() -> HealthThresholds {
        HealthThresholds {
            max_response_time_ms: 1000,
            max_error_rate_permille: 50,
            max_connection_usage_permille: 800,
            min_uptime_permille: 995,
            slow_query_threshold_ms: 500,
        }
    }
}

impl Default for HealthThresholds {
    /// One second, 5 %, 80 %, 99.5 % and 500 ms.
    fn default() -> (r: HealthThresholds)
        ensures
            r == HealthThresholds::default_spec(),
    {
        HealthThresholds {
            max_response_time_ms: 1000,
            max_error_rate_permille: 50,
            max_connection_usage_permille: 800,
            min_uptime_permille: 995,
            slow_query_threshold_ms: 500,
        }
    }
}

/// Connection pool occupancy.
#[derive(Debug, Clone, Copy)]
pub struct ConnectionPoolStats {
    pub total_connections: u32,
    pub active_connections: u32,
    pub idle_connections: u32,
}

/// Slow-query tally.
#[derive(Debug, Clone, Copy)]
pub struct PerformanceStats {
    pub slow_queries: u64,
}

/// The database's page size and page count, as SQLite reports them.
#[derive(Debug, Clone, Copy)]
pub struct DatabaseSizeInfo {
    pub page_size: i64,
    pub page_count: i64,
}

/// Bytes per mebibyte.
pub const BYTES_PER_MB: u64 = 1048576;

/// Above this many mebibytes the database is reported as large.
pub const MAX_DATABASE_SIZE_MB: u64 = 1000;

/// The pool is assumed to hold at most this many connections.
pub const ASSUMED_POOL_CAPACITY: u32 = 10;

/// Total size in bytes.
pub open spec fn size_bytes(s: DatabaseSizeInfo) -> int {
    s.page_size * s.page_count
}

/// The size in mebibytes, in tenths, rounded to the nearest tenth with ties
/// to even, as `{:.1}` renders it.
pub open spec fn size_tenths(bytes: int) -> int {
    let q = (bytes * 10) / (BYTES_PER_MB as int);
    let r = (bytes * 10) % (BYTES_PER_MB as int);
    if r > (BYTES_PER_MB as int) / 2 || (r == (BYTES_PER_MB as int) / 2 && q % 2 == 1) {
        q + 1
    } else {
        q
    }
}

/// A number of tenths written with one decimal, as `{:.1}` renders it.
pub open spec fn tenths_text(t: nat) -> Seq<char> {
    decimal_spec(t / 10) + "."@ + decimal_spec(t % 10)
}

/// The issue raised by the connectivity probe: a slow answer is a
/// performance warning, a failure is a critical connection issue.
pub open spec fn connectivity_issues(t: HealthThresholds, probe: Result<u64, String>) -> Seq<IssueView> {
    match probe {
        Ok(rt) => if rt > t.max_response_time_ms {
            seq![(IssueSeverity::Warning, IssueCategory::Performance,
                "Database response time is "@ + decimal_spec(rt as nat) + "ms (threshold: "@
                    + decimal_spec(t.max_response_time_ms as nat) + "ms)"@,
                None, 1u32)]
        } else {
            Seq::empty()
        },
        Err(e) => seq![(IssueSeverity::Critical, IssueCategory::Connection,
            "Database connectivity test failed: "@ + e@, Some(e@), 1u32)],
    }
}

/// The issue raised by the pool probe: usage (total over an assumed
/// capacity of ten) above the threshold is a capacity warning.
pub open spec fn pool_issues(t: HealthThresholds, p: ConnectionPoolStats) -> Seq<IssueView> {
    if p.total_connections * 100 > t.max_connection_usage_permille {
        seq![(IssueSeverity::Warning, IssueCategory::Capacity,
            "Connection pool usage is "@ + tenths_text((p.total_connections * 100) as nat) + "% (threshold: "@
                + tenths_text(t.max_connection_usage_permille as nat) + "%)"@,
            Some("Total: "@ + decimal_spec(p.total_connections as nat) + ", Active: "@
                + decimal_spec(p.active_connections as nat) + ", Idle: "@
                + decimal_spec(p.idle_connections as nat)),
            1u32)]
    } else {
        Seq::empty()
    }
}

/// The issue raised by the integrity probe: a failed check is critical, a
/// check that could not run is a warning.
pub open spec fn integrity_issues(probe: Result<bool, String>) -> Seq<IssueView> {
    match probe {
        Ok(true) => Seq::empty(),
        Ok(false) => seq![(IssueSeverity::Critical, IssueCategory::Integrity,
            "Database integrity check failed"@, None, 1u32)],
        Err(e) => seq![(IssueSeverity::Warning, IssueCategory::Integrity,
            "Could not perform integrity check: "@ + e@, Some(e@), 1u32)],
    }
}

/// The issue raised by slow queries, counted in the issue.
pub open spec fn performance_issues(t: HealthThresholds, p: PerformanceStats) -> Seq<IssueView> {
    if p.slow_queries > 0 {
        seq![(IssueSeverity::Warning, IssueCategory::Performance,
            decimal_spec(p.slow_queries as nat) + " slow queries detected"@,
            Some("Slow query threshold: "@ + decimal_spec(t.slow_query_threshold_ms as nat) + "ms"@),
            p.slow_queries as u32)]
    } else {
        Seq::empty()
    }
}

/// The issue raised by a database larger than a thousand mebibytes.
pub open spec fn size_issues(probe: Result<DatabaseSizeInfo, String>) -> Seq<IssueView> {
    match probe {
        Ok(s) => if size_bytes(s) > MAX_DATABASE_SIZE_MB * BYTES_PER_MB {
            seq![(IssueSeverity::Warning, IssueCategory::Capacity,
                "Database size is "@ + tenths_text(size_tenths(size_bytes(s)) as nat) + "MB"@,
                Some("Consider database cleanup or archiving"@), 1u32)]
        } else {
            Seq::empty()
        },
        Err(_) => Seq::empty(),
    }
}

/// The pool figures a check works with.
pub open spec fn pool_estimate() -> ConnectionPoolStats {
    ConnectionPoolStats { total_connections: 5, active_connections: 2, idle_connections: 3 }
}

/// The slow-query figures a check works with.
pub open spec fn performance_estimate() -> PerformanceStats {
    PerformanceStats { slow_queries: 0 }
}

/// All issues of one check, in probe order.
pub open spec fn expected_issues(
    t: HealthThresholds,
    connectivity: Result<u64, String>,
    integrity: Result<bool, String>,
    size: Result<DatabaseSizeInfo, String>,
) -> Seq<IssueView> {
    connectivity_issues(t, connectivity) + pool_issues(t, pool_estimate())
        + integrity_issues(integrity) + performance_issues(t, performance_estimate())
        + size_issues(size)
}

/// Some issue of the list is critical.
pub open spec fn has_critical(issues: Seq<IssueView>) -> bool {
    exists|k: int| 0 <= k < issues.len() && (#[trigger] issues[k]).0 == IssueSeverity::Critical
}

/// The number of healthy reports.
pub open spec fn healthy_count(h: Seq<DatabaseHealth>) -> nat
    decreases h.len(),
{
    if h.len() == 0 {
        0
    } else {
        healthy_count(h.drop_last()) + if h.last().is_healthy { 1nat } else { 0nat }
    }
}

/// The number of issues over all reports.
pub open spec fn issue_total(h: Seq<DatabaseHealth>) -> nat
    decreases h.len(),
{
    if h.len() == 0 {
        0
    } else {
        issue_total(h.drop_last()) + h.last().issues@.len()
    }
}

/// `h` with `x` appended, the oldest entry dropped when that makes it longer
/// than `max`.
pub open spec fn push_bounded<T>(h: Seq<T>, x: T, max: nat) -> Seq<T> {
    let p = h.push(x);
    if p.len() > max {
        p.drop_first()
    } else {
        p
    }
}

/// A report as the history keeps it: without the uptime and error figures.
pub open spec fn as_recorded(h: DatabaseHealth) -> DatabaseHealth {
    DatabaseHealth { healthy_checks: 0, checks_counted: 0, issues_counted: 0, ..h }
}

/// The views of a list of issues.
pub open spec fn issue_views(s: Seq<HealthIssue>) -> Seq<IssueView> {
    s.map_values(|i: HealthIssue| i.issue_view())
}

/// Every issue of the list was detected at `now`.
pub open spec fn stamped(s: Seq<HealthIssue>, now: i64) -> bool {
    forall|k: int| 0 <= k < s.len() ==> (#[trigger] s[k]).first_detected == now && s[k].last_detected == now
}

/// Appends an issue detected at `now`.
fn push_issue(
    issues: &mut Vec<HealthIssue>,
    severity: IssueSeverity,
    category: IssueCategory,
    message: String,
    details: Option<String>,
    count: u32,
    now: i64,
)
    requires
        stamped(old(issues)@, now),
    ensures
        issue_views(final(issues)@) == issue_views(old(issues)@).push(
            (severity, category, message@, opt_str_view(details), count),
        ),
        stamped(final(issues)@, now),
{
    let ghost before = issues@;
    let issue = HealthIssue {
        severity,
        category,
        message,
        details,
        first_detected: now,
        last_detected: now,
        count,
    };
    issues.push(issue);
    proof {
        assert(issue_views(issues@) =~= issue_views(before).push(issue.issue_view()));
    }
}

/// A number of tenths with one decimal.
fn tenths_string(t: u64) -> (r: String)
    ensures
        r@ == tenths_text(t as nat),
{
    let mut out = u64_to_decimal(t / 10);
    push_str(&mut out, ".");
    let frac = u64_to_decimal(t % 10);
    push_str(&mut out, frac.as_str());
    out
}

/// Appends the connectivity issue, if any.
fn push_connectivity_issues(issues: &mut Vec<HealthIssue>, t: &HealthThresholds, probe: &Result<u64, String>, now: i64)
    requires
        stamped(old(issues)@, now),
    ensures
        issue_views(final(issues)@) == issue_views(old(issues)@) + connectivity_issues(*t, *probe),
        stamped(final(issues)@, now),
{
    match probe {
        Ok(rt) => {
            if *rt > t.max_response_time_ms {
                let mut msg = owned("Database response time is ");
                let a = u64_to_decimal(*rt);
                push_str(&mut msg, a.as_str());
                push_str(&mut msg, "ms (threshold: ");
                let b = u64_to_decimal(t.max_response_time_ms);
                push_str(&mut msg, b.as_str());
                push_str(&mut msg, "ms)");
                push_issue(issues, IssueSeverity::Warning, IssueCategory::Performance, msg, None, 1, now);
            } else {
                assert(issue_views(issues@) =~= issue_views(issues@) + connectivity_issues(*t, *probe));
            }
        },
        Err(e) => {
            let mut msg = owned("Database connectivity test failed: ");
            push_str(&mut msg, e.as_str());
            push_issue(issues, IssueSeverity::Critical, IssueCategory::Connection, msg, Some(e.clone()), 1, now);
        },
    }
}

/// Appends the pool-usage issue, if any.
fn push_pool_issues(issues: &mut Vec<HealthIssue>, t: &HealthThresholds, p: ConnectionPoolStats, now: i64)
    requires
        stamped(old(issues)@, now),
    ensures
        issue_views(final(issues)@) == issue_views(old(issues)@) + pool_issues(*t, p),
        stamped(final(issues)@, now),
{
    let total = p.total_connections as u64;
    if total * 100 > t.max_connection_usage_permille {
        let mut msg = owned("Connection pool usage is ");
        let a = tenths_string(total * 100);
        push_str(&mut msg, a.as_str());
        push_str(&mut msg, "% (threshold: ");
        let b = tenths_string(t.max_connection_usage_permille);
        push_str(&mut msg, b.as_str());
        push_str(&mut msg, "%)");
        let mut det = owned("Total: ");
        let c = u64_to_decimal(total);
        push_str(&mut det, c.as_str());
        push_str(&mut det, ", Active: ");
        let d = u64_to_decimal(p.active_connections as u64);
        push_str(&mut det, d.as_str());
        push_str(&mut det, ", Idle: ");
        let e = u64_to_decimal(p.idle_connections as u64);
        push_str(&mut det, e.as_str());
        push_issue(issues, IssueSeverity::Warning, IssueCategory::Capacity, msg, Some(det), 1, now);
    } else {
        assert(issue_views(issues@) =~= issue_views(issues@) + pool_issues(*t, p));
    }
}

/// Appends the integrity issue, if any.
fn push_integrity_issues(issues: &mut Vec<HealthIssue>, probe: &Result<bool, String>, now: i64)
    requires
        stamped(old(issues)@, now),
    ensures
        issue_views(final(issues)@) == issue_views(old(issues)@) + integrity_issues(*probe),
        stamped(final(issues)@, now),
{
    match probe {
        Ok(valid) => {
            if !*valid {
                push_issue(issues, IssueSeverity::Critical, IssueCategory::Integrity,
                    owned("Database integrity check failed"), None, 1, now);
            } else {
                assert(issue_views(issues@) =~= issue_views(issues@) + integrity_issues(*probe));
            }
        },
        Err(e) => {
            let mut msg = owned("Could not perform integrity check: ");
            push_str(&mut msg, e.as_str());
            push_issue(issues, IssueSeverity::Warning, IssueCategory::Integrity, msg, Some(e.clone()), 1, now);
        },
    }
}

/// Appends the slow-query issue, if any.
fn push_performance_issues(issues: &mut Vec<HealthIssue>, t: &HealthThresholds, p: PerformanceStats, now: i64)
    requires
        stamped(old(issues)@, now),
    ensures
        issue_views(final(issues)@) == issue_views(old(issues)@) + performance_issues(*t, p),
        stamped(final(issues)@, now),
{
    if p.slow_queries > 0 {
        let mut msg = u64_to_decimal(p.slow_queries);
        push_str(&mut msg, " slow queries detected");
        let mut det = owned("Slow query threshold: ");
        let a = u64_to_decimal(t.slow_query_threshold_ms);
        push_str(&mut det, a.as_str());
        push_str(&mut det, "ms");
        push_issue(issues, IssueSeverity::Warning, IssueCategory::Performance, msg, Some(det),
            p.slow_queries as u32, now);
    } else {
        assert(issue_views(issues@) =~= issue_views(issues@) + performance_issues(*t, p));
    }
}

/// Appends the database-size issue, if any.
fn push_size_issues(issues: &mut Vec<HealthIssue>, probe: &Result<DatabaseSizeInfo, String>, now: i64)
    requires
        stamped(old(issues)@, now),
        *probe matches Ok(s) ==> i64::MIN <= size_bytes(s) <= i64::MAX,
    ensures
        issue_views(final(issues)@) == issue_views(old(issues)@) + size_issues(*probe),
        stamped(final(issues)@, now),
{
    match probe {
        Ok(s) => {
            let bytes: i64 = s.page_size * s.page_count;
            if bytes > 1048576000i64 {
                let b: u128 = bytes as u128;
                let q: u128 = (b * 10) / 1048576;
                let r: u128 = (b * 10) % 1048576;
                let tenths: u128 = if r > 524288 || (r == 524288 && q % 2 == 1) { q + 1 } else { q };
                assert(tenths == size_tenths(bytes as int));
                assert(tenths <= u64::MAX) by (nonlinear_arith)
                    requires
                        b <= i64::MAX,
                        q == (b * 10) / 1048576,
                        tenths <= q + 1,
                ;
                let mut msg = owned("Database size is ");
                let a = tenths_string(tenths as u64);
                push_str(&mut msg, a.as_str());
                push_str(&mut msg, "MB");
                push_issue(issues, IssueSeverity::Warning, IssueCategory::Capacity, msg,
                    Some(owned("Consider database cleanup or archiving")), 1, now);
            } else {
                assert(issue_views(issues@) =~= issue_views(issues@) + size_issues(*probe));
            }
        },
        Err(_) => {
            assert(issue_views(issues@) =~= issue_views(issues@) + size_issues(*probe));
        },
    }
}

/// Whether some issue of the list is critical.
fn any_critical(issues: &Vec<HealthIssue>) -> (r: bool)
    ensures
        r == has_critical(issue_views(issues@)),
{
    let mut i: usize = 0;
    while i < issues.len()
        invariant
            i <= issues@.len(),
            forall|k: int| 0 <= k < i ==> (#[trigger] issues@[k]).severity != IssueSeverity::Critical,
        decreases issues@.len() - i,
    {
        if issues[i].severity == IssueSeverity::Critical {
            assert(issue_views(issues@)[i as int].0 == IssueSeverity::Critical);
            return true;
        }
        i = i + 1;
    }
    assert forall|k: int| 0 <= k < issue_views(issues@).len() implies (#[trigger] issue_views(issues@)[k]).0
        != IssueSeverity::Critical by {
        assert(issues@[k].severity != IssueSeverity::Critical);
    }
    false
}

/// The stored report `stored` is `r` as the history keeps it.
pub open spec fn recorded_as(stored: DatabaseHealth, r: DatabaseHealth) -> bool {
    &&& stored.is_healthy == r.is_healthy
    &&& stored.connection_count == r.connection_count
    &&& stored.idle_connections == r.idle_connections
    &&& stored.active_connections == r.active_connections
    &&& stored.response_time_ms == r.response_time_ms
    &&& stored.last_check == r.last_check
    &&& stored.healthy_checks == 0
    &&& stored.checks_counted == 0
    &&& stored.issues_counted == 0
    &&& stored.slow_queries_count == r.slow_queries_count
    &&& stored.issues@ == r.issues@
}

/// The most checks the history keeps.
pub const MAX_HEALTH_HISTORY: usize = 1000;

/// The most issues one check can raise: one per probe.
pub const MAX_ISSUES_PER_CHECK: u64 = 5;

/// Runs health checks against thresholds and keeps the last thousand
/// reports.
pub struct HealthChecker {
    thresholds: HealthThresholds,
    health_history: Vec<DatabaseHealth>,
    max_history_size: usize,
}

impl HealthChecker {
    /// The thresholds in use.
    pub closed spec fn thresholds(&self) -> HealthThresholds {
        self.thresholds
    }

    /// The kept reports, oldest first.
    pub closed spec fn history(&self) -> Seq<DatabaseHealth> {
        self.health_history@
    }

    /// At most a thousand reports are kept, each with at most five issues.
    pub closed spec fn wf(&self) -> bool {
        &&& self.max_history_size == MAX_HEALTH_HISTORY
        &&& self.health_history@.len() <= MAX_HEALTH_HISTORY
        &&& forall|k: int| 0 <= k < self.health_history@.len()
            ==> (#[trigger] self.health_history@[k]).issues@.len() <= MAX_ISSUES_PER_CHECK
    }

    /// A checker with the default thresholds and no history.
    pub fn new() -> (r: HealthChecker)
        ensures
            r.wf(),
            r.history().len() == 0,
            r.thresholds() == HealthThresholds::default_spec(),
    {
        HealthChecker {
            thresholds: HealthThresholds::default(),
            health_history: Vec::new(),
            max_history_size: MAX_HEALTH_HISTORY,
        }
    }

    /// The same checker with other thresholds.
    pub fn with_thresholds(self, thresholds: HealthThresholds) -> (r: HealthChecker)
        requires
            self.wf(),
        ensures
            r.wf(),
            r.thresholds() == thresholds,
            r.history() == self.history(),
    {
        HealthChecker { thresholds, ..self }
    }

    /// A pool estimate: SQLite's pool does not report its occupancy.
    fn check_connection_pool(&self) -> (r: ConnectionPoolStats)
        ensures
            r == pool_estimate(),
    {
        ConnectionPoolStats { total_connections: 5, active_connections: 2, idle_connections: 3 }
    }

    /// A slow-query estimate: no query log is kept.
    fn check_performance(&self) -> (r: PerformanceStats)
        ensures
            r == performance_estimate(),
    {
        PerformanceStats { slow_queries: 0 }
    }

    /// Assesses the outcomes of the database probes: `connectivity` is the
    /// response time of a trivial query or the error it gave, `integrity`
    /// whether SQLite's integrity check answered "ok", `size` the page size
    /// and count. The report lists the issues in probe order, each stamped
    /// with the time of the check; it is healthy when no issue is critical.
    /// The report is added to the history (the oldest report leaves when a
    /// thousand are kept), and its uptime and error figures count the
    /// history as it then stands.
    pub fn check_health(
        &mut self,
        connectivity: Result<u64, String>,
        integrity: Result<bool, String>,
        size: Result<DatabaseSizeInfo, String>,
    ) -> (r: DatabaseHealth)
        requires
            old(self).wf(),
            size matches Ok(s) ==> i64::MIN <= size_bytes(s) <= i64::MAX,
        ensures
            final(self).wf(),
            final(self).thresholds() == old(self).thresholds(),
            issue_views(r.issues@) == expected_issues(old(self).thresholds(), connectivity, integrity, size),
            stamped(r.issues@, r.last_check),
            r.is_healthy == !has_critical(expected_issues(old(self).thresholds(), connectivity, integrity, size)),
            r.response_time_ms == (match connectivity { Ok(rt) => rt, Err(_) => 0 }),
            r.connection_count == pool_estimate().total_connections,
            r.active_connections == pool_estimate().active_connections,
            r.idle_connections == pool_estimate().idle_connections,
            r.slow_queries_count == performance_estimate().slow_queries,
            ({
                let old_h = old(self).history();
                let kept = if old_h.len() + 1 > MAX_HEALTH_HISTORY { old_h.drop_first() } else { old_h };
                &&& final(self).history().len() == kept.len() + 1
                &&& final(self).history().drop_last() == kept
                &&& recorded_as(final(self).history().last(), r)
            }),
            r.checks_counted == final(self).history().len(),
            r.healthy_checks == healthy_count(final(self).history()),
            r.issues_counted == issue_total(final(self).history()),
    {
        let now = now_millis();
        let mut is_healthy = true;
        let mut issues: Vec<HealthIssue> = Vec::new();
        let t = self.thresholds;
        let ghost expected = expected_issues(t, connectivity, integrity, size);

        push_connectivity_issues(&mut issues, &t, &connectivity, now);
        let response_time_ms: u64 = match &connectivity {
            Ok(rt) => *rt,
            Err(_) => {
                is_healthy = false;
                0
            },
        };
        let pool = self.check_connection_pool();
        push_pool_issues(&mut issues, &t, pool, now);
        push_integrity_issues(&mut issues, &integrity, now);
        if let Ok(false) = &integrity {
            is_healthy = false;
        }
        let perf = self.check_performance();
        push_performance_issues(&mut issues, &t, perf, now);
        push_size_issues(&mut issues, &size, now);
        assert(issue_views(issues@) =~= expected);
        assert(issues@.len() <= MAX_ISSUES_PER_CHECK);

        if is_healthy {
            is_healthy = !any_critical(&issues);
        } else {
            proof {
                if connectivity is Err {
                    assert(expected[0].0 == IssueSeverity::Critical);
                } else {
                    let k = connectivity_issues(t, connectivity).len() + pool_issues(t, pool).len();
                    assert(expected[k as int].0 == IssueSeverity::Critical);
                }
            }
        }

        let mut health = DatabaseHealth {
            is_healthy,
            connection_count: pool.total_connections,
            idle_connections: pool.idle_connections,
            active_connections: pool.active_connections,
            response_time_ms,
            last_check: now,
            healthy_checks: 0,
            checks_counted: 0,
            issues_counted: 0,
            slow_queries_count: perf.slow_queries,
            issues,
        };

        let ghost old_h = self.health_history@;
        self.health_history.push(health.duplicate());
        if self.health_history.len() > self.max_history_size {
            self.health_history.remove(0);
        }
        proof {
            let kept = if old_h.len() + 1 > MAX_HEALTH_HISTORY { old_h.drop_first() } else { old_h };
            assert(self.health_history@.drop_last() =~= kept);
        }

        let (healthy, total_issues) = self.count_history();
        health.healthy_checks = healthy;
        health.checks_counted = self.health_history.len() as u64;
        health.issues_counted = total_issues;
        health
    }

    /// The number of healthy reports and of issues over the history.
    fn count_history(&self) -> (r: (u64, u64))
        requires
            self.wf(),
        ensures
            r.0 == healthy_count(self.history()),
            r.1 == issue_total(self.history()),
    {
        let mut healthy: u64 = 0;
        let mut total: u64 = 0;
        let mut i: usize = 0;
        while i < self.health_history.len()
            invariant
                self.wf(),
                i <= self.health_history@.len(),
                healthy == healthy_count(self.health_history@.subrange(0, i as int)),
                total == issue_total(self.health_history@.subrange(0, i as int)),
                healthy <= i,
                total <= MAX_ISSUES_PER_CHECK * i,
            decreases self.health_history@.len() - i,
        {
            proof {
                let s = self.health_history@.subrange(0, i + 1);
                assert(s.drop_last() =~= self.health_history@.subrange(0, i as int));
                assert(s.last() == self.health_history@[i as int]);
            }
            if self.health_history[i].is_healthy {
                healthy = healthy + 1;
            }
            total = total + self.health_history[i].issues.len() as u64;
            i = i + 1;
        }
        assert(self.health_history@.subrange(0, i as int) =~= self.health_history@);
        (healthy, total)
    }

    /// Whether a quick probe answered within the response-time threshold;
    /// `None` is a probe that failed.
    pub fn quick_health_check(&self, response_time_ms: Option<u64>) -> (r: bool)
        ensures
            r == (response_time_ms matches Some(rt) && rt <= self.thresholds().max_response_time_ms),
    {
        match response_time_ms {
            Some(rt) => rt <= self.thresholds.max_response_time_ms,
            None => false,
        }
    }

    /// The last `limit` reports (all of them without a limit), oldest first.
    pub fn get_health_history(&self, limit: Option<usize>) -> (r: &[DatabaseHealth])
        ensures
            ({
                let len = self.history().len();
                let n = match limit { Some(l) => if l < len { l as int } else { len as int }, None => len as int };
                r@ == self.history().subrange(len - n, len as int)
            }),
    {
        let len = self.health_history.len();
        let n = match limit {
            Some(l) => if l < len { l } else { len },
            None => len,
        };
        slice_subrange(self.health_history.as_slice(), len - n, len)
    }

    /// The most recent report, if any.
    pub fn latest(&self) -> (r: Option<&DatabaseHealth>)
        ensures
            match r {
                Some(h) => self.history().len() > 0 && *h == self.history().last(),
                None => self.history().len() == 0,
            },
    {
        if self.health_history.len() == 0 {
            None
        } else {
            Some(&self.health_history[self.health_history.len() - 1])
        }
    }

    /// The thresholds in use.
    pub fn get_thresholds(&self) -> (r: HealthThresholds)
        ensures
            r == self.thresholds(),
    {
        self.thresholds
    }
}

/// The alert line of each critical issue of the list, in order.
pub open spec fn alert_lines_of(s: Seq<HealthIssue>) -> Seq<Seq<char>>
    decreases s.len(),
{
    if s.len() == 0 {
        Seq::empty()
    } else if s.last().severity == IssueSeverity::Critical {
        alert_lines_of(s.drop_last()).push("  🚨 CRITICAL: "@ + s.last().message@)
    } else {
        alert_lines_of(s.drop_last())
    }
}

/// The alert lines of a report: one per critical issue of an unhealthy
/// report, none for a healthy one.
pub open spec fn critical_alert_lines(h: DatabaseHealth) -> Seq<Seq<char>> {
    if h.is_healthy {
        Seq::empty()
    } else {
        alert_lines_of(h.issues@)
    }
}

/// The default interval between monitoring checks: a minute.
pub const DEFAULT_CHECK_INTERVAL_MS: u64 = 60000;

/// Repeated health checks. The caller runs the loop: while
/// `is_monitoring()` it runs the probes, hands them to `run_check`, reports
/// `critical_alerts` of the result and waits `check_interval_ms()`.
pub struct HealthMonitor {
    checker: HealthChecker,
    check_interval_ms: u64,
    is_monitoring: bool,
}

impl HealthMonitor {
    /// The checker in use.
    pub closed spec fn checker(&self) -> HealthChecker {
        self.checker
    }

    /// The interval between checks, in milliseconds.
    pub closed spec fn interval(&self) -> u64 {
        self.check_interval_ms
    }

    /// Whether monitoring is on.
    pub closed spec fn monitoring(&self) -> bool {
        self.is_monitoring
    }

    /// A stopped monitor checking every minute.
    pub fn new(checker: HealthChecker) -> (r: HealthMonitor)
        ensures
            r.checker() == checker,
            r.interval() == DEFAULT_CHECK_INTERVAL_MS,
            !r.monitoring(),
    {
        HealthMonitor { checker, check_interval_ms: DEFAULT_CHECK_INTERVAL_MS, is_monitoring: false }
    }

    /// The same monitor with another interval.
    pub fn with_interval(self, interval_ms: u64) -> (r: HealthMonitor)
        ensures
            r.checker() == self.checker(),
            r.interval() == interval_ms,
            r.monitoring() == self.monitoring(),
    {
        HealthMonitor { check_interval_ms: interval_ms, ..self }
    }

    /// Turns monitoring on; false, with nothing changed, when it already was.
    pub fn start_monitoring(&mut self) -> (started: bool)
        ensures
            started == !old(self).monitoring(),
            final(self).monitoring(),
            final(self).checker() == old(self).checker(),
            final(self).interval() == old(self).interval(),
    {
        if self.is_monitoring {
            false
        } else {
            self.is_monitoring = true;
            true
        }
    }

    /// Turns monitoring off; true when it was on.
    pub fn stop_monitoring(&mut self) -> (stopped: bool)
        ensures
            stopped == old(self).monitoring(),
            !final(self).monitoring(),
            final(self).checker() == old(self).checker(),
            final(self).interval() == old(self).interval(),
    {
        let was = self.is_monitoring;
        self.is_monitoring = false;
        was
    }

    /// Whether monitoring is on.
    pub fn is_monitoring(&self) -> (r: bool)
        ensures
            r == self.monitoring(),
    {
        self.is_monitoring
    }

    /// The interval between checks, in milliseconds.
    pub fn check_interval_ms(&self) -> (r: u64)
        ensures
            r == self.interval(),
    {
        self.check_interval_ms
    }

    /// One round of monitoring: the checker assesses the probe outcomes.
    pub fn run_check(
        &mut self,
        connectivity: Result<u64, String>,
        integrity: Result<bool, String>,
        size: Result<DatabaseSizeInfo, String>,
    ) -> (r: DatabaseHealth)
        requires
            old(self).checker().wf(),
            size matches Ok(s) ==> i64::MIN <= size_bytes(s) <= i64::MAX,
        ensures
            final(self).checker().wf(),
            final(self).interval() == old(self).interval(),
            final(self).monitoring() == old(self).monitoring(),
            final(self).checker().thresholds() == old(self).checker().thresholds(),
            issue_views(r.issues@) == expected_issues(old(self).checker().thresholds(), connectivity, integrity, size),
            r.is_healthy == !has_critical(expected_issues(old(self).checker().thresholds(), connectivity, integrity, size)),
    {
        self.checker.check_health(connectivity, integrity, size)
    }
}

/// The lines to report for a report: one per critical issue of an
/// unhealthy report.
pub fn critical_alerts(health: &DatabaseHealth) -> (r: Vec<String>)
    ensures
        string_views(r@) == critical_alert_lines(*health),
{
    let mut out: Vec<String> = Vec::new();
    if health.is_healthy {
        assert(string_views(out@) =~= critical_alert_lines(*health));
        return out;
    }
    let mut i: usize = 0;
    while i < health.issues.len()
        invariant
            i <= health.issues@.len(),
            !health.is_healthy,
            string_views(out@) == alert_lines_of(health.issues@.subrange(0, i as int)),
        decreases health.issues@.len() - i,
    {
        let ghost before = out@;
        proof {
            let s = health.issues@.subrange(0, i + 1);
            assert(s.drop_last() =~= health.issues@.subrange(0, i as int));
            assert(s.last() == health.issues@[i as int]);
        }
        if health.issues[i].severity == IssueSeverity::Critical {
            let mut line = owned("  🚨 CRITICAL: ");
            push_str(&mut line, health.issues[i].message.as_str());
            out.push(line);
            assert(string_views(out@) =~= string_views(before).push(line@));
        } else {
            assert(string_views(out@) =~= string_views(before));
        }
        i = i + 1;
    }
    assert(health.issues@.subrange(0, i as int) =~= health.issues@);
    out
}

/// Some issue of the list is about performance.
pub open spec fn has_performance_issue(issues: Seq<IssueView>) -> bool {
    exists|k: int| 0 <= k < issues.len() && (#[trigger] issues[k]).1 == IssueCategory::Performance
}

/// A check whose database answered in `rt` milliseconds reports a
/// performance problem exactly when `rt` exceeds the response-time
/// threshold: an answer within the threshold raises none.
pub proof fn lemma_slow_answer_is_reported(
    t: HealthThresholds,
    rt: u64,
    integrity: Result<bool, String>,
    size: Result<DatabaseSizeInfo, String>,
)
    ensures
        has_performance_issue(expected_issues(t, Ok(rt), integrity, size)) <==> rt > t.max_response_time_ms,
{
    let c = connectivity_issues(t, Ok(rt));
    let p = pool_issues(t, pool_estimate());
    let g = integrity_issues(integrity);
    let f = performance_issues(t, performance_estimate());
    let z = size_issues(size);
    let all = expected_issues(t, Ok(rt), integrity, size);
    assert(all == c + p + g + f + z);
    assert(f.len() == 0);
    if rt > t.max_response_time_ms {
        assert(all[0] == c[0]);
        assert(all[0].1 == IssueCategory::Performance);
    } else {
        assert(c.len() == 0);
        assert forall|k: int| 0 <= k < all.len() implies (#[trigger] all[k]).1 != IssueCategory::Performance by {
            let rest = p + g + f + z;
            assert(all =~= rest);
            if k < p.len() {
                assert(all[k] == p[k]);
            } else if k < p.len() + g.len() {
                assert(all[k] == g[k - p.len()]);
            } else {
                assert(all[k] == z[k - p.len() - g.len()]);
            }
        }
    }
}

/// A check finds the database unhealthy (some issue is critical) exactly
/// when the connectivity probe failed or the integrity check failed; a slow
/// answer, a busy pool, an integrity check that could not run or a large
/// database are only warnings.
pub proof fn lemma_critical_exactly_on_failures(
    t: HealthThresholds,
    connectivity: Result<u64, String>,
    integrity: Result<bool, String>,
    size: Result<DatabaseSizeInfo, String>,
)
    ensures
        has_critical(expected_issues(t, connectivity, integrity, size))
            <==> (connectivity is Err || integrity == Ok::<bool, String>(false)),
{
    let c = connectivity_issues(t, connectivity);
    let p = pool_issues(t, pool_estimate());
    let g = integrity_issues(integrity);
    let f = performance_issues(t, performance_estimate());
    let z = size_issues(size);
    let all = expected_issues(t, connectivity, integrity, size);
    assert(all == c + p + g + f + z);
    assert(f.len() == 0);
    if connectivity is Err {
        assert(all[0] == c[0]);
    } else if integrity == Ok::<bool, String>(false) {
        assert(all[(c.len() + p.len()) as int] == g[0]);
    } else {
        assert forall|k: int| 0 <= k < all.len() implies (#[trigger] all[k]).0 != IssueSeverity::Critical by {
            if k < c.len() {
                assert(all[k] == c[k]);
            } else if k < c.len() + p.len() {
                assert(all[k] == p[k - c.len()]);
            } else if k < c.len() + p.len() + g.len() {
                assert(all[k] == g[k - c.len() - p.len()]);
            } else {
                assert(all[k] == z[k - c.len() - p.len() - g.len()]);
            }
        }
    }
}

/// A check reports the database's size exactly when it is larger than the
/// limit (a thousand mebibytes).
pub proof fn lemma_large_database_is_reported(s: DatabaseSizeInfo)
    ensures
        size_issues(Ok(s)).len() > 0 <==> size_bytes(s) > MAX_DATABASE_SIZE_MB * BYTES_PER_MB,
        size_issues(Ok(s)).len() > 0 ==> size_issues(Ok(s))[0].1 == IssueCategory::Capacity,
{
}

} // verus!
