//! Configuration error kinds, their classification (retryable, client or
//! server side, category, HTTP status, severity) and their messages.

use vstd::prelude::*;
use crate::error::types::AppError;
use crate::text::{debug_list, debug_string_list, decimal_spec, owned, push_str, u64_to_decimal};

verus! {

/// Configuration-specific error kinds.
#[derive(Debug, Clone)]
pub enum ConfigError {
    /// Configuration value not found
    NotFound { key: String, provider: Option<String> },
    /// Configuration value is invalid
    InvalidValue { key: String, value: String, reason: String },
    /// Configuration source not available
    SourceUnavailable { source: String, reason: String },
    /// Parse error for configuration file
    ParseError { source: String, line: Option<u32>, column: Option<u32>, message: String },
    /// Validation error
    ValidationError { key: String, value: String, rule: String, message: String },
    /// Provider error
    ProviderError { provider: String, operation: String, message: String },
    /// Loader error
    LoaderError { loader: String, source: String, message: String },
    /// Watcher error
    WatcherError { watcher: String, source: String, message: String },
    /// Permission denied
    PermissionDenied { operation: String, resource: String },
    /// Configuration conflict
    Conflict { key: String, sources: Vec<String>, values: Vec<String> },
    /// Encryption/decryption error
    CryptoError { operation: String, message: String },
    /// Network error for remote configuration
    NetworkError { url: String, status_code: Option<u16>, message: String },
    /// Timeout error
    Timeout { operation: String, timeout_ms: u64 },
    /// Quota exceeded
    QuotaExceeded { resource: String, current_usage: u64, limit: u64 },
    /// Circular dependency detected
    CircularDependency { keys: Vec<String> },
    /// Unsupported operation
    UnsupportedOperation { operation: String, provider: String, reason: String },
    /// Invalid configuration structure
    InvalidStructure { message: String, path: Option<String> },
    /// Schema validation error
    SchemaError { schema: String, message: String, path: String },
    /// Version mismatch
    VersionMismatch { expected: String, actual: String, component: String },
    /// Generic configuration error; the details are key/value pairs
    Generic { message: String, component: Option<String>, details: Option<Vec<(String, String)>> },
}

/// Error severity levels, from least to most severe.
#[derive(Debug, Clone, Copy, PartialEq, Eq, Structural)]
pub enum ErrorSeverity {
    Debug,
    Info,
    Warning,
    Error,
    Critical,
}

/// The view of an optional string.
pub open spec fn opt_view(o: Option<String>) -> Option<Seq<char>> {
    match o {
        Some(s) => Some(s@),
        None => None,
    }
}

impl ConfigError {
    /// Errors that a retry may cure.
    pub open spec fn spec_is_retryable(&self) -> bool {
        match self {
            ConfigError::SourceUnavailable { .. } => true,
            ConfigError::NetworkError { .. } => true,
            ConfigError::Timeout { .. } => true,
            ConfigError::ProviderError { .. } => true,
            ConfigError::LoaderError { .. } => true,
            ConfigError::WatcherError { .. } => true,
            _ => false,
        }
    }

    /// Errors caused by the caller: their status code is in the 4xx family.
    pub open spec fn spec_is_client_error(&self) -> bool {
        400 <= self.spec_http_status_code() && self.spec_http_status_code() < 500
    }

    /// Errors on the serving side: their status code is in the 5xx family.
    pub open spec fn spec_is_server_error(&self) -> bool {
        500 <= self.spec_http_status_code() && self.spec_http_status_code() < 600
    }

    /// The position of each kind in the declaration.
    pub open spec fn spec_kind_index(&self) -> int {
        match self {
            ConfigError::NotFound { .. } => 0,
            ConfigError::InvalidValue { .. } => 1,
            ConfigError::SourceUnavailable { .. } => 2,
            ConfigError::ParseError { .. } => 3,
            ConfigError::ValidationError { .. } => 4,
            ConfigError::ProviderError { .. } => 5,
            ConfigError::LoaderError { .. } => 6,
            ConfigError::WatcherError { .. } => 7,
            ConfigError::PermissionDenied { .. } => 8,
            ConfigError::Conflict { .. } => 9,
            ConfigError::CryptoError { .. } => 10,
            ConfigError::NetworkError { .. } => 11,
            ConfigError::Timeout { .. } => 12,
            ConfigError::QuotaExceeded { .. } => 13,
            ConfigError::CircularDependency { .. } => 14,
            ConfigError::UnsupportedOperation { .. } => 15,
            ConfigError::InvalidStructure { .. } => 16,
            ConfigError::SchemaError { .. } => 17,
            ConfigError::VersionMismatch { .. } => 18,
            ConfigError::Generic { .. } => 19,
        }
    }

    /// The category name of each kind.
    pub open spec fn spec_category(&self) -> Seq<char> {
        match self {
            ConfigError::NotFound { .. } => "not_found"@,
            ConfigError::InvalidValue { .. } => "invalid_value"@,
            ConfigError::SourceUnavailable { .. } => "source_unavailable"@,
            ConfigError::ParseError { .. } => "parse_error"@,
            ConfigError::ValidationError { .. } => "validation_error"@,
            ConfigError::ProviderError { .. } => "provider_error"@,
            ConfigError::LoaderError { .. } => "loader_error"@,
            ConfigError::WatcherError { .. } => "watcher_error"@,
            ConfigError::PermissionDenied { .. } => "permission_denied"@,
            ConfigError::Conflict { .. } => "conflict"@,
            ConfigError::CryptoError { .. } => "crypto_error"@,
            ConfigError::NetworkError { .. } => "network_error"@,
            ConfigError::Timeout { .. } => "timeout"@,
            ConfigError::QuotaExceeded { .. } => "quota_exceeded"@,
            ConfigError::CircularDependency { .. } => "circular_dependency"@,
            ConfigError::UnsupportedOperation { .. } => "unsupported_operation"@,
            ConfigError::InvalidStructure { .. } => "invalid_structure"@,
            ConfigError::SchemaError { .. } => "schema_error"@,
            ConfigError::VersionMismatch { .. } => "version_mismatch"@,
            ConfigError::Generic { .. } => "generic"@,
        }
    }

    /// The HTTP status code that stands for each kind.
    pub open spec fn spec_http_status_code(&self) -> u16 {
        match self {
            ConfigError::NotFound { .. } => 404,
            ConfigError::InvalidValue { .. } => 400,
            ConfigError::ValidationError { .. } => 422,
            ConfigError::PermissionDenied { .. } => 403,
            ConfigError::Conflict { .. } => 409,
            ConfigError::UnsupportedOperation { .. } => 501,
            ConfigError::QuotaExceeded { .. } => 429,
            ConfigError::NetworkError { status_code, .. } => match status_code {
                Some(c) => *c,
                None => 502,
            },
            ConfigError::Timeout { .. } => 504,
            ConfigError::SourceUnavailable { .. } => 503,
            _ => 500,
        }
    }

    /// The severity of each kind.
    pub open spec fn spec_severity(&self) -> ErrorSeverity {
        match self {
            ConfigError::NotFound { .. } => ErrorSeverity::Warning,
            ConfigError::ValidationError { .. } => ErrorSeverity::Error,
            ConfigError::InvalidValue { .. } => ErrorSeverity::Error,
            ConfigError::PermissionDenied { .. } => ErrorSeverity::Error,
            ConfigError::SourceUnavailable { .. } => ErrorSeverity::Critical,
            ConfigError::NetworkError { .. } => ErrorSeverity::Error,
            ConfigError::Timeout { .. } => ErrorSeverity::Warning,
            ConfigError::CryptoError { .. } => ErrorSeverity::Critical,
            ConfigError::CircularDependency { .. } => ErrorSeverity::Critical,
            ConfigError::SchemaError { .. } => ErrorSeverity::Error,
            ConfigError::VersionMismatch { .. } => ErrorSeverity::Warning,
            _ => ErrorSeverity::Error,
        }
    }

    /// The human-readable message of each kind.
    pub open spec fn spec_message(&self) -> Seq<char> {
        match self {
            ConfigError::NotFound { key, provider } => match provider {
                Some(p) => "Configuration key '"@ + key@ + "' not found in provider '"@ + p@ + "'"@,
                None => "Configuration key '"@ + key@ + "' not found"@,
            },
            ConfigError::InvalidValue { key, value, reason } =>
                "Invalid value '"@ + value@ + "' for key '"@ + key@ + "': "@ + reason@,
            ConfigError::SourceUnavailable { source, reason } =>
                "Configuration source '"@ + source@ + "' unavailable: "@ + reason@,
            ConfigError::ParseError { source, line, column, message } => match (line, column) {
                (Some(l), Some(c)) => "Parse error in '"@ + source@ + "' at line "@ + decimal_spec(*l as nat)
                    + ", column "@ + decimal_spec(*c as nat) + ": "@ + message@,
                _ => "Parse error in '"@ + source@ + "': "@ + message@,
            },
            ConfigError::ValidationError { key, value, rule, message } =>
                "Validation failed for key '"@ + key@ + "' with value '"@ + value@ + "': "@ + message@
                    + " ("@ + rule@ + ")"@,
            ConfigError::ProviderError { provider, operation, message } =>
                "Provider '"@ + provider@ + "' error during '"@ + operation@ + "': "@ + message@,
            ConfigError::LoaderError { loader, source, message } =>
                "Loader '"@ + loader@ + "' error for source '"@ + source@ + "': "@ + message@,
            ConfigError::WatcherError { watcher, source, message } =>
                "Watcher '"@ + watcher@ + "' error for source '"@ + source@ + "': "@ + message@,
            ConfigError::PermissionDenied { operation, resource } =>
                "Permission denied to '"@ + operation@ + "' resource '"@ + resource@ + "'"@,
            ConfigError::Conflict { key, sources, .. } =>
                "Configuration conflict for key '"@ + key@ + "' between sources: "@
                    + debug_string_list(sources@.map_values(|s: String| s@)),
            ConfigError::CryptoError { operation, message } =>
                "Crypto error during '"@ + operation@ + "': "@ + message@,
            ConfigError::NetworkError { url, status_code, message } => match status_code {
                Some(c) => "Network error for '"@ + url@ + "' ("@ + decimal_spec(*c as nat) + "): "@ + message@,
                None => "Network error for '"@ + url@ + "': "@ + message@,
            },
            ConfigError::Timeout { operation, timeout_ms } =>
                "Operation '"@ + operation@ + "' timed out after "@ + decimal_spec(*timeout_ms as nat) + "ms"@,
            ConfigError::QuotaExceeded { resource, current_usage, limit } =>
                "Quota exceeded for '"@ + resource@ + "': "@ + decimal_spec(*current_usage as nat) + "/"@
                    + decimal_spec(*limit as nat),
            ConfigError::CircularDependency { keys } =>
                "Circular dependency detected: "@ + debug_string_list(keys@.map_values(|s: String| s@)),
            ConfigError::UnsupportedOperation { operation, provider, reason } =>
                "Unsupported operation '"@ + operation@ + "' for provider '"@ + provider@ + "': "@ + reason@,
            ConfigError::InvalidStructure { message, path } => match path {
                Some(p) => "Invalid configuration structure at '"@ + p@ + "': "@ + message@,
                None => "Invalid configuration structure: "@ + message@,
            },
            ConfigError::SchemaError { schema, message, path } =>
                "Schema error for '"@ + schema@ + "' at '"@ + path@ + "': "@ + message@,
            ConfigError::VersionMismatch { expected, actual, component } =>
                "Version mismatch for '"@ + component@ + "': expected "@ + expected@ + ", got "@ + actual@,
            ConfigError::Generic { message, component, .. } => match component {
                Some(c) => "Configuration error in '"@ + c@ + "': "@ + message@,
                None => "Configuration error: "@ + message@,
            },
        }
    }

    /// Create a not found error
    pub fn not_found(key: &str) -> (r: Self)
        ensures
            r matches ConfigError::NotFound { key: k, provider: None } && k@ == key@,
    {
        ConfigError::NotFound { key: owned(key), provider: None }
    }

    /// Create a not found error with provider
    pub fn not_found_with_provider(key: &str, provider: &str) -> (r: Self)
        ensures
            r matches ConfigError::NotFound { key: k, provider: Some(p) } && k@ == key@ && p@ == provider@,
    {
        ConfigError::NotFound { key: owned(key), provider: Some(owned(provider)) }
    }

    /// Create an invalid value error
    pub fn invalid_value(key: &str, value: &str, reason: &str) -> (r: Self)
        ensures
            r matches ConfigError::InvalidValue { key: k, value: v, reason: x }
                && k@ == key@ && v@ == value@ && x@ == reason@,
    {
        ConfigError::InvalidValue { key: owned(key), value: owned(value), reason: owned(reason) }
    }

    /// Create a source unavailable error
    pub fn source_unavailable(source: &str, reason: &str) -> (r: Self)
        ensures
            r matches ConfigError::SourceUnavailable { source: s, reason: x } && s@ == source@ && x@ == reason@,
    {
        ConfigError::SourceUnavailable { source: owned(source), reason: owned(reason) }
    }

    /// Create a parse error
    pub fn parse_error(source: &str, message: &str) -> (r: Self)
        ensures
            r matches ConfigError::ParseError { source: s, line: None, column: None, message: m }
                && s@ == source@ && m@ == message@,
    {
        ConfigError::ParseError { source: owned(source), line: None, column: None, message: owned(message) }
    }

    /// Create a parse error with location
    pub fn parse_error_with_location(source: &str, line: u32, column: u32, message: &str) -> (r: Self)
        ensures
            r matches ConfigError::ParseError { source: s, line: Some(l), column: Some(c), message: m }
                && s@ == source@ && l == line && c == column && m@ == message@,
    {
        ConfigError::ParseError {
            source: owned(source),
            line: Some(line),
            column: Some(column),
            message: owned(message),
        }
    }

    /// Create a validation error
    pub fn validation_error(key: &str, value: &str, rule: &str, message: &str) -> (r: Self)
        ensures
            r matches ConfigError::ValidationError { key: k, value: v, rule: u, message: m }
                && k@ == key@ && v@ == value@ && u@ == rule@ && m@ == message@,
    {
        ConfigError::ValidationError {
            key: owned(key),
            value: owned(value),
            rule: owned(rule),
            message: owned(message),
        }
    }

    /// Create a provider error
    pub fn provider_error(provider: &str, operation: &str, message: &str) -> (r: Self)
        ensures
            r matches ConfigError::ProviderError { provider: p, operation: o, message: m }
                && p@ == provider@ && o@ == operation@ && m@ == message@,
    {
        ConfigError::ProviderError { provider: owned(provider), operation: owned(operation), message: owned(message) }
    }

    /// Create a loader error
    pub fn loader_error(loader: &str, source: &str, message: &str) -> (r: Self)
        ensures
            r matches ConfigError::LoaderError { loader: l, source: s, message: m }
                && l@ == loader@ && s@ == source@ && m@ == message@,
    {
        ConfigError::LoaderError { loader: owned(loader), source: owned(source), message: owned(message) }
    }

    /// Create a watcher error
    pub fn watcher_error(watcher: &str, source: &str, message: &str) -> (r: Self)
        ensures
            r matches ConfigError::WatcherError { watcher: w, source: s, message: m }
                && w@ == watcher@ && s@ == source@ && m@ == message@,
    {
        ConfigError::WatcherError { watcher: owned(watcher), source: owned(source), message: owned(message) }
    }

    /// Create a permission denied error
    pub fn permission_denied(operation: &str, resource: &str) -> (r: Self)
        ensures
            r matches ConfigError::PermissionDenied { operation: o, resource: x } && o@ == operation@ && x@ == resource@,
    {
        ConfigError::PermissionDenied { operation: owned(operation), resource: owned(resource) }
    }

    /// Create a conflict error
    pub fn conflict(key: &str, sources: Vec<String>, values: Vec<String>) -> (r: Self)
        ensures
            r matches ConfigError::Conflict { key: k, sources: s, values: v }
                && k@ == key@ && s == sources && v == values,
    {
        ConfigError::Conflict { key: owned(key), sources, values }
    }

    /// Create a crypto error
    pub fn crypto_error(operation: &str, message: &str) -> (r: Self)
        ensures
            r matches ConfigError::CryptoError { operation: o, message: m } && o@ == operation@ && m@ == message@,
    {
        ConfigError::CryptoError { operation: owned(operation), message: owned(message) }
    }

    /// Create a network error
    pub fn network_error(url: &str, message: &str) -> (r: Self)
        ensures
            r matches ConfigError::NetworkError { url: u, status_code: None, message: m } && u@ == url@ && m@ == message@,
    {
        ConfigError::NetworkError { url: owned(url), status_code: None, message: owned(message) }
    }

    /// Create a network error with status code
    pub fn network_error_with_status(url: &str, status_code: u16, message: &str) -> (r: Self)
        ensures
            r matches ConfigError::NetworkError { url: u, status_code: Some(c), message: m }
                && u@ == url@ && c == status_code && m@ == message@,
    {
        ConfigError::NetworkError { url: owned(url), status_code: Some(status_code), message: owned(message) }
    }

    /// Create a timeout error
    pub fn timeout(operation: &str, timeout_ms: u64) -> (r: Self)
        ensures
            r matches ConfigError::Timeout { operation: o, timeout_ms: t } && o@ == operation@ && t == timeout_ms,
    {
        ConfigError::Timeout { operation: owned(operation), timeout_ms }
    }

    /// Create a quota exceeded error
    pub fn quota_exceeded(resource: &str, current_usage: u64, limit: u64) -> (r: Self)
        ensures
            r matches ConfigError::QuotaExceeded { resource: x, current_usage: c, limit: l }
                && x@ == resource@ && c == current_usage && l == limit,
    {
        ConfigError::QuotaExceeded { resource: owned(resource), current_usage, limit }
    }

    /// Create a circular dependency error
    pub fn circular_dependency(keys: Vec<String>) -> (r: Self)
        ensures
            r matches ConfigError::CircularDependency { keys: k } && k == keys,
    {
        ConfigError::CircularDependency { keys }
    }

    /// Create an unsupported operation error
    pub fn unsupported_operation(operation: &str, provider: &str, reason: &str) -> (r: Self)
        ensures
            r matches ConfigError::UnsupportedOperation { operation: o, provider: p, reason: x }
                && o@ == operation@ && p@ == provider@ && x@ == reason@,
    {
        ConfigError::UnsupportedOperation { operation: owned(operation), provider: owned(provider), reason: owned(reason) }
    }

    /// Create an invalid structure error
    pub fn invalid_structure(message: &str) -> (r: Self)
        ensures
            r matches ConfigError::InvalidStructure { message: m, path: None } && m@ == message@,
    {
        ConfigError::InvalidStructure { message: owned(message), path: None }
    }

    /// Create an invalid structure error with path
    pub fn invalid_structure_with_path(message: &str, path: &str) -> (r: Self)
        ensures
            r matches ConfigError::InvalidStructure { message: m, path: Some(p) } && m@ == message@ && p@ == path@,
    {
        ConfigError::InvalidStructure { message: owned(message), path: Some(owned(path)) }
    }

    /// Create a schema error
    pub fn schema_error(schema: &str, message: &str, path: &str) -> (r: Self)
        ensures
            r matches ConfigError::SchemaError { schema: s, message: m, path: p }
                && s@ == schema@ && m@ == message@ && p@ == path@,
    {
        ConfigError::SchemaError { schema: owned(schema), message: owned(message), path: owned(path) }
    }

    /// Create a version mismatch error
    #[allow(non_snake_case)]
    pub fn versionMismatch(expected: &str, actual: &str, component: &str) -> (r: Self)
        ensures
            r matches ConfigError::VersionMismatch { expected: e, actual: a, component: c }
                && e@ == expected@ && a@ == actual@ && c@ == component@,
    {
        ConfigError::VersionMismatch { expected: owned(expected), actual: owned(actual), component: owned(component) }
    }

    /// Create a generic error
    pub fn generic(message: &str) -> (r: Self)
        ensures
            r matches ConfigError::Generic { message: m, component: None, details: None } && m@ == message@,
    {
        ConfigError::Generic { message: owned(message), component: None, details: None }
    }

    /// Create a generic error with component
    pub fn generic_with_component(message: &str, component: &str) -> (r: Self)
        ensures
            r matches ConfigError::Generic { message: m, component: Some(c), details: None }
                && m@ == message@ && c@ == component@,
    {
        ConfigError::Generic { message: owned(message), component: Some(owned(component)), details: None }
    }

    /// Create a generic error with details
    pub fn generic_with_details(message: &str, details: Vec<(String, String)>) -> (r: Self)
        ensures
            r matches ConfigError::Generic { message: m, component: None, details: Some(d) }
                && m@ == message@ && d == details,
    {
        ConfigError::Generic { message: owned(message), component: None, details: Some(details) }
    }

    /// Check if this is a retryable error
    pub fn is_retryable(&self) -> (r: bool)
        ensures
            r == self.spec_is_retryable(),
    {
        match self {
            ConfigError::SourceUnavailable { .. } => true,
            ConfigError::NetworkError { .. } => true,
            ConfigError::Timeout { .. } => true,
            ConfigError::ProviderError { .. } => true,
            ConfigError::LoaderError { .. } => true,
            ConfigError::WatcherError { .. } => true,
            _ => false,
        }
    }

    /// Check if this is a client error (4xx)
    pub fn is_client_error(&self) -> (r: bool)
        ensures
            r == self.spec_is_client_error(),
    {
        let code = self.http_status_code();
        400 <= code && code < 500
    }

    /// Check if this is a server error (5xx)
    pub fn is_server_error(&self) -> (r: bool)
        ensures
            r == self.spec_is_server_error(),
    {
        let code = self.http_status_code();
        500 <= code && code < 600
    }

    /// Get error category
    pub fn category(&self) -> (r: &'static str)
        ensures
            r@ == self.spec_category(),
    {
        match self {
            ConfigError::NotFound { .. } => "not_found",
            ConfigError::InvalidValue { .. } => "invalid_value",
            ConfigError::SourceUnavailable { .. } => "source_unavailable",
            ConfigError::ParseError { .. } => "parse_error",
            ConfigError::ValidationError { .. } => "validation_error",
            ConfigError::ProviderError { .. } => "provider_error",
            ConfigError::LoaderError { .. } => "loader_error",
            ConfigError::WatcherError { .. } => "watcher_error",
            ConfigError::PermissionDenied { .. } => "permission_denied",
            ConfigError::Conflict { .. } => "conflict",
            ConfigError::CryptoError { .. } => "crypto_error",
            ConfigError::NetworkError { .. } => "network_error",
            ConfigError::Timeout { .. } => "timeout",
            ConfigError::QuotaExceeded { .. } => "quota_exceeded",
            ConfigError::CircularDependency { .. } => "circular_dependency",
            ConfigError::UnsupportedOperation { .. } => "unsupported_operation",
            ConfigError::InvalidStructure { .. } => "invalid_structure",
            ConfigError::SchemaError { .. } => "schema_error",
            ConfigError::VersionMismatch { .. } => "version_mismatch",
            ConfigError::Generic { .. } => "generic",
        }
    }

    /// Get HTTP status code equivalent
    pub fn http_status_code(&self) -> (r: u16)
        ensures
            r == self.spec_http_status_code(),
    {
        match self {
            ConfigError::NotFound { .. } => 404,
            ConfigError::InvalidValue { .. } => 400,
            ConfigError::ValidationError { .. } => 422,
            ConfigError::PermissionDenied { .. } => 403,
            ConfigError::Conflict { .. } => 409,
            ConfigError::UnsupportedOperation { .. } => 501,
            ConfigError::QuotaExceeded { .. } => 429,
            ConfigError::NetworkError { status_code, .. } => match status_code {
                Some(c) => *c,
                None => 502,
            },
            ConfigError::Timeout { .. } => 504,
            ConfigError::SourceUnavailable { .. } => 503,
            _ => 500,
        }
    }

    /// Get error severity
    pub fn severity(&self) -> (r: ErrorSeverity)
        ensures
            r == self.spec_severity(),
    {
        match self {
            ConfigError::NotFound { .. } => ErrorSeverity::Warning,
            ConfigError::ValidationError { .. } => ErrorSeverity::Error,
            ConfigError::InvalidValue { .. } => ErrorSeverity::Error,
            ConfigError::PermissionDenied { .. } => ErrorSeverity::Error,
            ConfigError::SourceUnavailable { .. } => ErrorSeverity::Critical,
            ConfigError::NetworkError { .. } => ErrorSeverity::Error,
            ConfigError::Timeout { .. } => ErrorSeverity::Warning,
            ConfigError::CryptoError { .. } => ErrorSeverity::Critical,
            ConfigError::CircularDependency { .. } => ErrorSeverity::Critical,
            ConfigError::SchemaError { .. } => ErrorSeverity::Error,
            ConfigError::VersionMismatch { .. } => ErrorSeverity::Warning,
            _ => ErrorSeverity::Error,
        }
    }
}

impl ConfigError {
    /// The human-readable message, as the `Display` of the error shows it.
    pub fn to_string(&self) -> (r: String)
        ensures
            r@ == self.spec_message(),
    {
        match self {
            ConfigError::NotFound { key, provider: Some(p) } => {
                let mut out = owned("Configuration key '");
                push_str(&mut out, key.as_str());
                push_str(&mut out, "' not found in provider '");
                push_str(&mut out, p.as_str());
                push_str(&mut out, "'");
                out
            }
            ConfigError::NotFound { key, provider: None } => {
                let mut out = owned("Configuration key '");
                push_str(&mut out, key.as_str());
                push_str(&mut out, "' not found");
                out
            }
            ConfigError::InvalidValue { key, value, reason } => {
                let mut out = owned("Invalid value '");
                push_str(&mut out, value.as_str());
                push_str(&mut out, "' for key '");
                push_str(&mut out, key.as_str());
                push_str(&mut out, "': ");
                push_str(&mut out, reason.as_str());
                out
            }
            ConfigError::SourceUnavailable { source, reason } => {
                let mut out = owned("Configuration source '");
                push_str(&mut out, source.as_str());
                push_str(&mut out, "' unavailable: ");
                push_str(&mut out, reason.as_str());
                out
            }
            ConfigError::ParseError { source, line: Some(l), column: Some(c), message } => {
                let mut out = owned("Parse error in '");
                push_str(&mut out, source.as_str());
                push_str(&mut out, "' at line ");
                let t = u64_to_decimal(*l as u64);
                push_str(&mut out, t.as_str());
                push_str(&mut out, ", column ");
                let t = u64_to_decimal(*c as u64);
                push_str(&mut out, t.as_str());
                push_str(&mut out, ": ");
                push_str(&mut out, message.as_str());
                out
            }
            ConfigError::ParseError { source, message, .. } => {
                let mut out = owned("Parse error in '");
                push_str(&mut out, source.as_str());
                push_str(&mut out, "': ");
                push_str(&mut out, message.as_str());
                out
            }
            ConfigError::ValidationError { key, value, rule, message } => {
                let mut out = owned("Validation failed for key '");
                push_str(&mut out, key.as_str());
                push_str(&mut out, "' with value '");
                push_str(&mut out, value.as_str());
                push_str(&mut out, "': ");
                push_str(&mut out, message.as_str());
                push_str(&mut out, " (");
                push_str(&mut out, rule.as_str());
                push_str(&mut out, ")");
                out
            }
            ConfigError::ProviderError { provider, operation, message } => {
                let mut out = owned("Provider '");
                push_str(&mut out, provider.as_str());
                push_str(&mut out, "' error during '");
                push_str(&mut out, operation.as_str());
                push_str(&mut out, "': ");
                push_str(&mut out, message.as_str());
                out
            }
            ConfigError::LoaderError { loader, source, message } => {
                let mut out = owned("Loader '");
                push_str(&mut out, loader.as_str());
                push_str(&mut out, "' error for source '");
                push_str(&mut out, source.as_str());
                push_str(&mut out, "': ");
                push_str(&mut out, message.as_str());
                out
            }
            ConfigError::WatcherError { watcher, source, message } => {
                let mut out = owned("Watcher '");
                push_str(&mut out, watcher.as_str());
                push_str(&mut out, "' error for source '");
                push_str(&mut out, source.as_str());
                push_str(&mut out, "': ");
                push_str(&mut out, message.as_str());
                out
            }
            ConfigError::PermissionDenied { operation, resource } => {
                let mut out = owned("Permission denied to '");
                push_str(&mut out, operation.as_str());
                push_str(&mut out, "' resource '");
                push_str(&mut out, resource.as_str());
                push_str(&mut out, "'");
                out
            }
            ConfigError::Conflict { key, sources, .. } => {
                let mut out = owned("Configuration conflict for key '");
                push_str(&mut out, key.as_str());
                push_str(&mut out, "' between sources: ");
                let t = debug_list(sources);
                push_str(&mut out, t.as_str());
                out
            }
            ConfigError::CryptoError { operation, message } => {
                let mut out = owned("Crypto error during '");
                push_str(&mut out, operation.as_str());
                push_str(&mut out, "': ");
                push_str(&mut out, message.as_str());
                out
            }
            ConfigError::NetworkError { url, status_code: Some(c), message } => {
                let mut out = owned("Network error for '");
                push_str(&mut out, url.as_str());
                push_str(&mut out, "' (");
                let t = u64_to_decimal(*c as u64);
                push_str(&mut out, t.as_str());
                push_str(&mut out, "): ");
                push_str(&mut out, message.as_str());
                out
            }
            ConfigError::NetworkError { url, status_code: None, message } => {
                let mut out = owned("Network error for '");
                push_str(&mut out, url.as_str());
                push_str(&mut out, "': ");
                push_str(&mut out, message.as_str());
                out
            }
            ConfigError::Timeout { operation, timeout_ms } => {
                let mut out = owned("Operation '");
                push_str(&mut out, operation.as_str());
                push_str(&mut out, "' timed out after ");
                let t = u64_to_decimal(*timeout_ms as u64);
                push_str(&mut out, t.as_str());
                push_str(&mut out, "ms");
                out
            }
            ConfigError::QuotaExceeded { resource, current_usage, limit } => {
                let mut out = owned("Quota exceeded for '");
                push_str(&mut out, resource.as_str());
                push_str(&mut out, "': ");
                let t = u64_to_decimal(*current_usage as u64);
                push_str(&mut out, t.as_str());
                push_str(&mut out, "/");
                let t = u64_to_decimal(*limit as u64);
                push_str(&mut out, t.as_str());
                out
            }
            ConfigError::CircularDependency { keys } => {
                let mut out = owned("Circular dependency detected: ");
                let t = debug_list(keys);
                push_str(&mut out, t.as_str());
                out
            }
            ConfigError::UnsupportedOperation { operation, provider, reason } => {
                let mut out = owned("Unsupported operation '");
                push_str(&mut out, operation.as_str());
                push_str(&mut out, "' for provider '");
                push_str(&mut out, provider.as_str());
                push_str(&mut out, "': ");
                push_str(&mut out, reason.as_str());
                out
            }
            ConfigError::InvalidStructure { message, path: Some(p) } => {
                let mut out = owned("Invalid configuration structure at '");
                push_str(&mut out, p.as_str());
                push_str(&mut out, "': ");
                push_str(&mut out, message.as_str());
                out
            }
            ConfigError::InvalidStructure { message, path: None } => {
                let mut out = owned("Invalid configuration structure: ");
                push_str(&mut out, message.as_str());
                out
            }
            ConfigError::SchemaError { schema, message, path } => {
                let mut out = owned("Schema error for '");
                push_str(&mut out, schema.as_str());
                push_str(&mut out, "' at '");
                push_str(&mut out, path.as_str());
                push_str(&mut out, "': ");
                push_str(&mut out, message.as_str());
                out
            }
            ConfigError::VersionMismatch { expected, actual, component } => {
                let mut out = owned("Version mismatch for '");
                push_str(&mut out, component.as_str());
                push_str(&mut out, "': expected ");
                push_str(&mut out, expected.as_str());
                push_str(&mut out, ", got ");
                push_str(&mut out, actual.as_str());
                out
            }
            ConfigError::Generic { message, component: Some(c), .. } => {
                let mut out = owned("Configuration error in '");
                push_str(&mut out, c.as_str());
                push_str(&mut out, "': ");
                push_str(&mut out, message.as_str());
                out
            }
            ConfigError::Generic { message, component: None, .. } => {
                let mut out = owned("Configuration error: ");
                push_str(&mut out, message.as_str());
                out
            }
        }
    }
}

impl ConfigError {
    /// The field an application error names for this configuration error.
    pub open spec fn spec_field(&self) -> Seq<char> {
        match self {
            ConfigError::InvalidValue { key, .. } => key@,
            ConfigError::ValidationError { key, .. } => key@,
            ConfigError::NotFound { key, .. } => key@,
            _ => "config"@,
        }
    }

    /// The application error this configuration error becomes: its message,
    /// and the offending key where there is one.
    pub fn into_app_error(self) -> (r: AppError)
        ensures
            r matches AppError::Config { message, field }
                && message@ == self.spec_message() && field@ == self.spec_field(),
    {
        let message = self.to_string();
        let field = match self {
            ConfigError::InvalidValue { key, .. } => key,
            ConfigError::ValidationError { key, .. } => key,
            ConfigError::NotFound { key, .. } => key,
            _ => owned("config"),
        };
        AppError::Config { message, field }
    }
}

/// Each kind of configuration error has its own category name: two errors
/// have the same category exactly when they are of the same kind.
pub proof fn lemma_category_identifies_kind(e1: ConfigError, e2: ConfigError)
    ensures
        (e1.spec_category() == e2.spec_category()) <==> (e1.spec_kind_index() == e2.spec_kind_index()),
{
    reveal_strlit("not_found");
    reveal_strlit("invalid_value");
    reveal_strlit("source_unavailable");
    reveal_strlit("parse_error");
    reveal_strlit("validation_error");
    reveal_strlit("provider_error");
    reveal_strlit("loader_error");
    reveal_strlit("watcher_error");
    reveal_strlit("permission_denied");
    reveal_strlit("conflict");
    reveal_strlit("crypto_error");
    reveal_strlit("network_error");
    reveal_strlit("timeout");
    reveal_strlit("quota_exceeded");
    reveal_strlit("circular_dependency");
    reveal_strlit("unsupported_operation");
    reveal_strlit("invalid_structure");
    reveal_strlit("schema_error");
    reveal_strlit("version_mismatch");
    reveal_strlit("generic");
    assert("not_found"@.len() == 9 && "not_found"@[0] == 'n' && "not_found"@[1] == 'o');
    assert("invalid_value"@.len() == 13 && "invalid_value"@[0] == 'i' && "invalid_value"@[1] == 'n');
    assert("source_unavailable"@.len() == 18 && "source_unavailable"@[0] == 's' && "source_unavailable"@[1] == 'o');
    assert("parse_error"@.len() == 11 && "parse_error"@[0] == 'p' && "parse_error"@[1] == 'a');
    assert("validation_error"@.len() == 16 && "validation_error"@[0] == 'v' && "validation_error"@[1] == 'a');
    assert("provider_error"@.len() == 14 && "provider_error"@[0] == 'p' && "provider_error"@[1] == 'r');
    assert("loader_error"@.len() == 12 && "loader_error"@[0] == 'l' && "loader_error"@[1] == 'o');
    assert("watcher_error"@.len() == 13 && "watcher_error"@[0] == 'w' && "watcher_error"@[1] == 'a');
    assert("permission_denied"@.len() == 17 && "permission_denied"@[0] == 'p' && "permission_denied"@[1] == 'e');
    assert("conflict"@.len() == 8 && "conflict"@[0] == 'c' && "conflict"@[1] == 'o');
    assert("crypto_error"@.len() == 12 && "crypto_error"@[0] == 'c' && "crypto_error"@[1] == 'r');
    assert("network_error"@.len() == 13 && "network_error"@[0] == 'n' && "network_error"@[1] == 'e');
    assert("timeout"@.len() == 7 && "timeout"@[0] == 't' && "timeout"@[1] == 'i');
    assert("quota_exceeded"@.len() == 14 && "quota_exceeded"@[0] == 'q' && "quota_exceeded"@[1] == 'u');
    assert("circular_dependency"@.len() == 19 && "circular_dependency"@[0] == 'c' && "circular_dependency"@[1] == 'i');
    assert("unsupported_operation"@.len() == 21 && "unsupported_operation"@[0] == 'u' && "unsupported_operation"@[1] == 'n');
    assert("invalid_structure"@.len() == 17 && "invalid_structure"@[0] == 'i' && "invalid_structure"@[1] == 'n');
    assert("schema_error"@.len() == 12 && "schema_error"@[0] == 's' && "schema_error"@[1] == 'c');
    assert("version_mismatch"@.len() == 16 && "version_mismatch"@[0] == 'v' && "version_mismatch"@[1] == 'e');
    assert("generic"@.len() == 7 && "generic"@[0] == 'g' && "generic"@[1] == 'e');
}

} // verus!
