//! Reporting around configuration errors: the context an error happened in,
//! and counts of the errors seen, by category, component, source and
//! severity. Instants are milliseconds since the Unix epoch; the rates and
//! the mean resolution time, which are fractions, are left to the caller,
//! who has the counts and the summed resolution time.

use vstd::prelude::*;
use crate::assoc::{as_map, get_value, keys_unique};
use crate::clock::now_millis;
use crate::config::error::{ConfigError, ErrorSeverity};
use crate::config::manager::{bump, bumped};
use crate::logging::metrics::{add_count, count_of, wadd, wrapping_sum};
use crate::text::owned;

verus! {

/// Where and when a configuration error happened.
#[derive(Debug, Clone)]
pub struct ConfigErrorContext {
    pub component: String,
    pub operation: String,
    pub key: Option<String>,
    pub source: Option<String>,
    pub timestamp: i64,
    pub request_id: Option<String>,
    pub user_id: Option<String>,
    pub metadata: Vec<(String, String)>,
}

impl ConfigErrorContext {
    /// Each metadata key is held once.
    pub open spec fn wf(&self) -> bool {
        keys_unique(self.metadata@)
    }

    /// A context for `operation` in `component`, stamped now, with nothing
    /// else set.
    pub fn new(component: String, operation: String) -> (r: Self)
        ensures
            r.wf(),
            r.component == component,
            r.operation == operation,
            r.key is None && r.source is None && r.request_id is None && r.user_id is None,
            r.metadata@.len() == 0,
    {
        ConfigErrorContext {
            component,
            operation,
            key: None,
            source: None,
            timestamp: now_millis(),
            request_id: None,
            user_id: None,
            metadata: Vec::new(),
        }
    }

    /// The context with the key set.
    pub fn with_key(self, key: String) -> (r: Self)
        ensures
            r == (ConfigErrorContext { key: Some(key), ..self }),
    {
        ConfigErrorContext { key: Some(key), ..self }
    }

    /// The context with the source set.
    pub fn with_source(self, source: String) -> (r: Self)
        ensures
            r == (ConfigErrorContext { source: Some(source), ..self }),
    {
        ConfigErrorContext { source: Some(source), ..self }
    }

    /// The context with the request id set.
    pub fn with_request_id(self, request_id: String) -> (r: Self)
        ensures
            r == (ConfigErrorContext { request_id: Some(request_id), ..self }),
    {
        ConfigErrorContext { request_id: Some(request_id), ..self }
    }

    /// The context with the user id set.
    pub fn with_user_id(self, user_id: String) -> (r: Self)
        ensures
            r == (ConfigErrorContext { user_id: Some(user_id), ..self }),
    {
        ConfigErrorContext { user_id: Some(user_id), ..self }
    }

    /// The context with its metadata replaced.
    pub fn with_metadata(self, metadata: Vec<(String, String)>) -> (r: Self)
        requires
            keys_unique(metadata@),
        ensures
            r.wf(),
            r == (ConfigErrorContext { metadata, ..self }),
    {
        ConfigErrorContext { metadata, ..self }
    }
}

/// The name `Debug` gives each severity.
pub open spec fn severity_name_spec(s: ErrorSeverity) -> Seq<char> {
    match s {
        ErrorSeverity::Debug => "Debug"@,
        ErrorSeverity::Info => "Info"@,
        ErrorSeverity::Warning => "Warning"@,
        ErrorSeverity::Error => "Error"@,
        ErrorSeverity::Critical => "Critical"@,
    }
}

/// The name `Debug` gives a severity.
pub fn severity_name(s: ErrorSeverity) -> (r: &'static str)
    ensures
        r@ == severity_name_spec(s),
{
    match s {
        ErrorSeverity::Debug => "Debug",
        ErrorSeverity::Info => "Info",
        ErrorSeverity::Warning => "Warning",
        ErrorSeverity::Error => "Error",
        ErrorSeverity::Critical => "Critical",
    }
}

/// Counts of the configuration errors seen. Every counter wraps around at
/// the top of its range.
#[derive(Debug)]
pub struct ConfigErrorMetrics {
    pub total_errors: u64,
    pub errors_by_category: Vec<(String, u64)>,
    pub errors_by_component: Vec<(String, u64)>,
    pub errors_by_source: Vec<(String, u64)>,
    pub retryable_errors: u64,
    pub client_errors: u64,
    pub server_errors: u64,
    pub errors_by_severity: Vec<(String, u64)>,
    pub total_resolution_time_ms: u64,
}

/// The count of `key` one higher.
pub open spec fn counted(m: Map<Seq<char>, u64>, key: Seq<char>) -> Map<Seq<char>, u64> {
    m.insert(key, wadd(count_of(m, key), 1))
}

impl ConfigErrorMetrics {
    /// Each breakdown holds each name once.
    pub open spec fn wf(&self) -> bool {
        &&& keys_unique(self.errors_by_category@)
        &&& keys_unique(self.errors_by_component@)
        &&& keys_unique(self.errors_by_source@)
        &&& keys_unique(self.errors_by_severity@)
    }

    /// No errors counted.
    pub fn new() -> (r: Self)
        ensures
            r.wf(),
            r.total_errors == 0 && r.retryable_errors == 0 && r.client_errors == 0 && r.server_errors == 0,
            r.total_resolution_time_ms == 0,
            r.errors_by_category@.len() == 0 && r.errors_by_component@.len() == 0,
            r.errors_by_source@.len() == 0 && r.errors_by_severity@.len() == 0,
    {
        ConfigErrorMetrics {
            total_errors: 0,
            errors_by_category: Vec::new(),
            errors_by_component: Vec::new(),
            errors_by_source: Vec::new(),
            retryable_errors: 0,
            client_errors: 0,
            server_errors: 0,
            errors_by_severity: Vec::new(),
            total_resolution_time_ms: 0,
        }
    }

    /// Counts `error`, raised in `component` and, if named, from `source`,
    /// that took `resolution_time_ms` to resolve: the total, its category,
    /// component, source and severity (by its `Debug` name), whether it is
    /// retryable, and whether it is a client error or, otherwise, a server
    /// error.
    pub fn record_error(&mut self, error: &ConfigError, component: &str, source: Option<&str>, resolution_time_ms: u64)
        requires
            old(self).wf(),
        ensures
            final(self).wf(),
            final(self).total_errors == bump(old(self).total_errors),
            as_map(final(self).errors_by_category@) == counted(as_map(old(self).errors_by_category@), error.spec_category()),
            as_map(final(self).errors_by_component@) == counted(as_map(old(self).errors_by_component@), component@),
            as_map(final(self).errors_by_source@) == match source {
                Some(s) => counted(as_map(old(self).errors_by_source@), s@),
                None => as_map(old(self).errors_by_source@),
            },
            as_map(final(self).errors_by_severity@) == counted(as_map(old(self).errors_by_severity@), severity_name_spec(error.spec_severity())),
            final(self).retryable_errors == if error.spec_is_retryable() { bump(old(self).retryable_errors) } else { old(self).retryable_errors },
            final(self).client_errors == if error.spec_is_client_error() { bump(old(self).client_errors) } else { old(self).client_errors },
            final(self).server_errors == if error.spec_is_client_error() { old(self).server_errors } else { bump(old(self).server_errors) },
            final(self).total_resolution_time_ms == wadd(old(self).total_resolution_time_ms, resolution_time_ms),
    {
        self.total_errors = bumped(self.total_errors);
        add_count(&mut self.errors_by_category, owned(error.category()), 1);
        add_count(&mut self.errors_by_component, owned(component), 1);
        match source {
            Some(s) => add_count(&mut self.errors_by_source, owned(s), 1),
            None => {},
        }
        if error.is_retryable() {
            self.retryable_errors = bumped(self.retryable_errors);
        }
        if error.is_client_error() {
            self.client_errors = bumped(self.client_errors);
        } else {
            self.server_errors = bumped(self.server_errors);
        }
        add_count(&mut self.errors_by_severity, owned(severity_name(error.severity())), 1);
        self.total_resolution_time_ms = wrapping_sum(self.total_resolution_time_ms, resolution_time_ms);
    }

    /// The number of errors of `category`.
    pub fn category_count(&self, category: &str) -> (r: u64)
        requires
            self.wf(),
        ensures
            r == count_of(as_map(self.errors_by_category@), category@),
    {
        match get_value(&self.errors_by_category, category) {
            Some(c) => *c,
            None => 0,
        }
    }
}

impl Default for ConfigErrorMetrics {
    /// No errors counted.
    fn default() -> (r: Self)
        ensures
            r.wf(),
            r.total_errors == 0,
    {
        ConfigErrorMetrics::new()
    }
}

} // verus!
