//! Logging error kinds, their classification and messages.

use vstd::prelude::*;
use crate::error::types::AppError;
use crate::text::{
    debug_quoted, debug_str, decimal_spec, join, join_spec, owned, push_str, u64_to_decimal,
};

verus! {

/// Logging-specific error types
#[derive(Debug, Clone)]
pub enum LogError {
    InitializationError { logger_name: String, message: String },
    AppenderError { appender_name: String, operation: String, message: String },
    FormatterError { formatter_name: String, message: String },
    FilterError { filter_name: String, message: String },
    ContextError { operation: String, message: String },
    MetricsError { operation: String, message: String },
    ConfigurationError { parameter: String, message: String },
    IoError { operation: String, path: Option<String>, message: String },
    SerializationError { operation: String, message: String },
    BufferOverflow { buffer_name: String, size: usize, capacity: usize },
    ChannelError { operation: String, message: String },
    Timeout { operation: String, timeout_ms: u64 },
    PermissionDenied { operation: String, resource: String },
    ResourceExhausted { resource_type: String, current_usage: u64, limit: u64 },
    InvalidLogLevel { level: String, valid_levels: Vec<String> },
    InvalidFormat { format: String, message: String },
    ValidationError { field: String, value: String, reason: String },
    RecordTooLarge { size_bytes: usize, max_size_bytes: usize },
    AsyncError { operation: String, message: String },
    ShutdownError { logger_name: String, message: String },
    Generic { component: String, operation: String, message: String, details: Option<Vec<(String, String)>> },
}

/// Error severity levels, from least to most severe.
#[derive(Debug, Clone, Copy, PartialEq, Eq, Structural)]
pub enum ErrorSeverity {
    Debug,
    Info,
    Warning,
    Error,
    Critical,
}

impl LogError {
    /// Create a `InitializationError` error
    pub fn initialization_error(logger_name: &str, message: &str) -> (r: Self)
        ensures
            r matches LogError::InitializationError { logger_name: x_logger_name, message: x_message }
                && x_logger_name@ == logger_name@
                && x_message@ == message@,
    {
        LogError::InitializationError { logger_name: owned(logger_name), message: owned(message) }
    }
    /// Create a `AppenderError` error
    pub fn appender_error(appender_name: &str, operation: &str, message: &str) -> (r: Self)
        ensures
            r matches LogError::AppenderError { appender_name: x_appender_name, operation: x_operation, message: x_message }
                && x_appender_name@ == appender_name@
                && x_operation@ == operation@
                && x_message@ == message@,
    {
        LogError::AppenderError { appender_name: owned(appender_name), operation: owned(operation), message: owned(message) }
    }
    /// Create a `FormatterError` error
    pub fn formatter_error(formatter_name: &str, message: &str) -> (r: Self)
        ensures
            r matches LogError::FormatterError { formatter_name: x_formatter_name, message: x_message }
                && x_formatter_name@ == formatter_name@
                && x_message@ == message@,
    {
        LogError::FormatterError { formatter_name: owned(formatter_name), message: owned(message) }
    }
    /// Create a `FilterError` error
    pub fn filter_error(filter_name: &str, message: &str) -> (r: Self)
        ensures
            r matches LogError::FilterError { filter_name: x_filter_name, message: x_message }
                && x_filter_name@ == filter_name@
                && x_message@ == message@,
    {
        LogError::FilterError { filter_name: owned(filter_name), message: owned(message) }
    }
    /// Create a `ContextError` error
    pub fn context_error(operation: &str, message: &str) -> (r: Self)
        ensures
            r matches LogError::ContextError { operation: x_operation, message: x_message }
                && x_operation@ == operation@
                && x_message@ == message@,
    {
        LogError::ContextError { operation: owned(operation), message: owned(message) }
    }
    /// Create a `MetricsError` error
    pub fn metrics_error(operation: &str, message: &str) -> (r: Self)
        ensures
            r matches LogError::MetricsError { operation: x_operation, message: x_message }
                && x_operation@ == operation@
                && x_message@ == message@,
    {
        LogError::MetricsError { operation: owned(operation), message: owned(message) }
    }
    /// Create a `ConfigurationError` error
    pub fn configuration_error(parameter: &str, message: &str) -> (r: Self)
        ensures
            r matches LogError::ConfigurationError { parameter: x_parameter, message: x_message }
                && x_parameter@ == parameter@
                && x_message@ == message@,
    {
        LogError::ConfigurationError { parameter: owned(parameter), message: owned(message) }
    }
    /// Create a `IoError` error
    pub fn io_error(operation: &str, path: Option<String>, message: &str) -> (r: Self)
        ensures
            r matches LogError::IoError { operation: x_operation, path: x_path, message: x_message }
                && x_operation@ == operation@
                && x_path == path
                && x_message@ == message@,
    {
        LogError::IoError { operation: owned(operation), path, message: owned(message) }
    }
    /// Create a `SerializationError` error
    pub fn serialization_error(operation: &str, message: &str) -> (r: Self)
        ensures
            r matches LogError::SerializationError { operation: x_operation, message: x_message }
                && x_operation@ == operation@
                && x_message@ == message@,
    {
        LogError::SerializationError { operation: owned(operation), message: owned(message) }
    }
    /// Create a `BufferOverflow` error
    pub fn buffer_overflow(buffer_name: &str, size: usize, capacity: usize) -> (r: Self)
        ensures
            r matches LogError::BufferOverflow { buffer_name: x_buffer_name, size: x_size, capacity: x_capacity }
                && x_buffer_name@ == buffer_name@
                && x_size == size
                && x_capacity == capacity,
    {
        LogError::BufferOverflow { buffer_name: owned(buffer_name), size, capacity }
    }
    /// Create a `ChannelError` error
    pub fn channel_error(operation: &str, message: &str) -> (r: Self)
        ensures
            r matches LogError::ChannelError { operation: x_operation, message: x_message }
                && x_operation@ == operation@
                && x_message@ == message@,
    {
        LogError::ChannelError { operation: owned(operation), message: owned(message) }
    }
    /// Create a `Timeout` error
    pub fn timeout(operation: &str, timeout_ms: u64) -> (r: Self)
        ensures
            r matches LogError::Timeout { operation: x_operation, timeout_ms: x_timeout_ms }
                && x_operation@ == operation@
                && x_timeout_ms == timeout_ms,
    {
        LogError::Timeout { operation: owned(operation), timeout_ms }
    }
    /// Create a `PermissionDenied` error
    pub fn permission_denied(operation: &str, resource: &str) -> (r: Self)
        ensures
            r matches LogError::PermissionDenied { operation: x_operation, resource: x_resource }
                && x_operation@ == operation@
                && x_resource@ == resource@,
    {
        LogError::PermissionDenied { operation: owned(operation), resource: owned(resource) }
    }
    /// Create a `ResourceExhausted` error
    pub fn resource_exhausted(resource_type: &str, current_usage: u64, limit: u64) -> (r: Self)
        ensures
            r matches LogError::ResourceExhausted { resource_type: x_resource_type, current_usage: x_current_usage, limit: x_limit }
                && x_resource_type@ == resource_type@
                && x_current_usage == current_usage
                && x_limit == limit,
    {
        LogError::ResourceExhausted { resource_type: owned(resource_type), current_usage, limit }
    }
    /// Create a `InvalidLogLevel` error
    pub fn invalid_log_level(level: &str, valid_levels: Vec<String>) -> (r: Self)
        ensures
            r matches LogError::InvalidLogLevel { level: x_level, valid_levels: x_valid_levels }
                && x_level@ == level@
                && x_valid_levels == valid_levels,
    {
        LogError::InvalidLogLevel { level: owned(level), valid_levels }
    }
    /// Create a `InvalidFormat` error
    pub fn invalid_format(format: &str, message: &str) -> (r: Self)
        ensures
            r matches LogError::InvalidFormat { format: x_format, message: x_message }
                && x_format@ == format@
                && x_message@ == message@,
    {
        LogError::InvalidFormat { format: owned(format), message: owned(message) }
    }
    /// Create a `ValidationError` error
    pub fn validation_error(field: &str, value: &str, reason: &str) -> (r: Self)
        ensures
            r matches LogError::ValidationError { field: x_field, value: x_value, reason: x_reason }
                && x_field@ == field@
                && x_value@ == value@
                && x_reason@ == reason@,
    {
        LogError::ValidationError { field: owned(field), value: owned(value), reason: owned(reason) }
    }
    /// Create a `RecordTooLarge` error
    pub fn record_too_large(size_bytes: usize, max_size_bytes: usize) -> (r: Self)
        ensures
            r matches LogError::RecordTooLarge { size_bytes: x_size_bytes, max_size_bytes: x_max_size_bytes }
                && x_size_bytes == size_bytes
                && x_max_size_bytes == max_size_bytes,
    {
        LogError::RecordTooLarge { size_bytes, max_size_bytes }
    }
    /// Create a `AsyncError` error
    pub fn async_error(operation: &str, message: &str) -> (r: Self)
        ensures
            r matches LogError::AsyncError { operation: x_operation, message: x_message }
                && x_operation@ == operation@
                && x_message@ == message@,
    {
        LogError::AsyncError { operation: owned(operation), message: owned(message) }
    }
    /// Create a `ShutdownError` error
    pub fn shutdown_error(logger_name: &str, message: &str) -> (r: Self)
        ensures
            r matches LogError::ShutdownError { logger_name: x_logger_name, message: x_message }
                && x_logger_name@ == logger_name@
                && x_message@ == message@,
    {
        LogError::ShutdownError { logger_name: owned(logger_name), message: owned(message) }
    }
    /// Create a `Generic` error
    pub fn generic(component: &str, operation: &str, message: &str) -> (r: Self)
        ensures
            r matches LogError::Generic { component: x_component, operation: x_operation, message: x_message, details: None }
                && x_component@ == component@
                && x_operation@ == operation@
                && x_message@ == message@,
    {
        LogError::Generic { component: owned(component), operation: owned(operation), message: owned(message), details: None }
    }
    /// Create a generic error with details
    pub fn generic_with_details(component: &str, operation: &str, message: &str, details: Vec<(String, String)>) -> (r: Self)
        ensures
            r matches LogError::Generic { component: c, operation: o, message: m, details: Some(d) }
                && c@ == component@ && o@ == operation@ && m@ == message@ && d == details,
    {
        LogError::Generic { component: owned(component), operation: owned(operation), message: owned(message), details: Some(details) }
    }

    /// Errors that a retry may cure.
    pub open spec fn spec_is_retryable(&self) -> bool {
        match self {
            LogError::IoError { .. } => true,
            LogError::ChannelError { .. } => true,
            LogError::Timeout { .. } => true,
            LogError::AsyncError { .. } => true,
            _ => false,
        }
    }

    /// Errors caused by the caller.
    pub open spec fn spec_is_client_error(&self) -> bool {
        match self {
            LogError::ConfigurationError { .. } => true,
            LogError::InvalidLogLevel { .. } => true,
            LogError::InvalidFormat { .. } => true,
            LogError::ValidationError { .. } => true,
            LogError::RecordTooLarge { .. } => true,
            _ => false,
        }
    }

    /// The category name of each kind.
    pub open spec fn spec_category(&self) -> Seq<char> {
        match self {
            LogError::InitializationError { .. } => "initialization"@,
            LogError::AppenderError { .. } => "appender"@,
            LogError::FormatterError { .. } => "formatter"@,
            LogError::FilterError { .. } => "filter"@,
            LogError::ContextError { .. } => "context"@,
            LogError::MetricsError { .. } => "metrics"@,
            LogError::ConfigurationError { .. } => "configuration"@,
            LogError::IoError { .. } => "io"@,
            LogError::SerializationError { .. } => "serialization"@,
            LogError::BufferOverflow { .. } => "buffer"@,
            LogError::ChannelError { .. } => "channel"@,
            LogError::Timeout { .. } => "timeout"@,
            LogError::PermissionDenied { .. } => "permission"@,
            LogError::ResourceExhausted { .. } => "resource"@,
            LogError::InvalidLogLevel { .. } => "level"@,
            LogError::InvalidFormat { .. } => "format"@,
            LogError::ValidationError { .. } => "validation"@,
            LogError::RecordTooLarge { .. } => "size"@,
            LogError::AsyncError { .. } => "async"@,
            LogError::ShutdownError { .. } => "shutdown"@,
            LogError::Generic { .. } => "generic"@,
        }
    }

    /// The severity of each kind.
    pub open spec fn spec_severity(&self) -> ErrorSeverity {
        match self {
            LogError::InitializationError { .. } => ErrorSeverity::Critical,
            LogError::AppenderError { .. } => ErrorSeverity::Error,
            LogError::FormatterError { .. } => ErrorSeverity::Error,
            LogError::FilterError { .. } => ErrorSeverity::Error,
            LogError::ContextError { .. } => ErrorSeverity::Error,
            LogError::MetricsError { .. } => ErrorSeverity::Warning,
            LogError::ConfigurationError { .. } => ErrorSeverity::Error,
            LogError::IoError { .. } => ErrorSeverity::Error,
            LogError::SerializationError { .. } => ErrorSeverity::Error,
            LogError::BufferOverflow { .. } => ErrorSeverity::Warning,
            LogError::ChannelError { .. } => ErrorSeverity::Error,
            LogError::Timeout { .. } => ErrorSeverity::Warning,
            LogError::PermissionDenied { .. } => ErrorSeverity::Error,
            LogError::ResourceExhausted { .. } => ErrorSeverity::Critical,
            LogError::InvalidLogLevel { .. } => ErrorSeverity::Error,
            LogError::InvalidFormat { .. } => ErrorSeverity::Error,
            LogError::ValidationError { .. } => ErrorSeverity::Error,
            LogError::RecordTooLarge { .. } => ErrorSeverity::Warning,
            LogError::AsyncError { .. } => ErrorSeverity::Error,
            LogError::ShutdownError { .. } => ErrorSeverity::Error,
            LogError::Generic { .. } => ErrorSeverity::Error,
        }
    }

    /// The human-readable message of each kind.
    pub open spec fn spec_message(&self) -> Seq<char> {
        match self {
            LogError::InitializationError { logger_name, message, .. } => "Initialization error for logger '"@ + logger_name@ + "': "@ + message@,
            LogError::AppenderError { appender_name, operation, message, .. } => "Appender '"@ + appender_name@ + "' error during '"@ + operation@ + "': "@ + message@,
            LogError::FormatterError { formatter_name, message, .. } => "Formatter '"@ + formatter_name@ + "' error: "@ + message@,
            LogError::FilterError { filter_name, message, .. } => "Filter '"@ + filter_name@ + "' error: "@ + message@,
            LogError::ContextError { operation, message, .. } => "Context error during '"@ + operation@ + "': "@ + message@,
            LogError::MetricsError { operation, message, .. } => "Metrics error during '"@ + operation@ + "': "@ + message@,
            LogError::ConfigurationError { parameter, message, .. } => "Configuration error for parameter '"@ + parameter@ + "': "@ + message@,
            LogError::IoError { operation, path, message } => match path {
                Some(p) => "I/O error during '"@ + operation@ + "' on '"@ + p@ + "': "@ + message@,
                None => "I/O error during '"@ + operation@ + "': "@ + message@,
            },
            LogError::SerializationError { operation, message, .. } => "Serialization error during '"@ + operation@ + "': "@ + message@,
            LogError::BufferOverflow { buffer_name, size, capacity, .. } => "Buffer overflow in '"@ + buffer_name@ + "': "@ + decimal_spec(*size as nat) + " bytes exceeds capacity "@ + decimal_spec(*capacity as nat),
            LogError::ChannelError { operation, message, .. } => "Channel error during '"@ + operation@ + "': "@ + message@,
            LogError::Timeout { operation, timeout_ms, .. } => "Timeout during '"@ + operation@ + "' after "@ + decimal_spec(*timeout_ms as nat) + "ms"@,
            LogError::PermissionDenied { operation, resource, .. } => "Permission denied to '"@ + operation@ + "' on '"@ + resource@ + "'"@,
            LogError::ResourceExhausted { resource_type, current_usage, limit, .. } => "Resource '"@ + resource_type@ + "' exhausted: "@ + decimal_spec(*current_usage as nat) + "/"@ + decimal_spec(*limit as nat),
            LogError::InvalidLogLevel { level, valid_levels } =>
                "Invalid log level '"@ + level@ + "'. Valid levels: "@
                    + debug_quoted(join_spec(valid_levels@.map_values(|s: String| s@), ", "@)),
            LogError::InvalidFormat { format, message, .. } => "Invalid format '"@ + format@ + "': "@ + message@,
            LogError::ValidationError { field, value, reason, .. } => "Validation error for field '"@ + field@ + "' with value '"@ + value@ + "': "@ + reason@,
            LogError::RecordTooLarge { size_bytes, max_size_bytes, .. } => "Log record too large: "@ + decimal_spec(*size_bytes as nat) + " bytes exceeds maximum "@ + decimal_spec(*max_size_bytes as nat),
            LogError::AsyncError { operation, message, .. } => "Async error during '"@ + operation@ + "': "@ + message@,
            LogError::ShutdownError { logger_name, message, .. } => "Shutdown error for logger '"@ + logger_name@ + "': "@ + message@,
            LogError::Generic { component, operation, message, .. } => "Logging error in '"@ + component@ + "' during '"@ + operation@ + "': "@ + message@,
        }
    }

    /// The field an application error names for this logging error.
    pub open spec fn spec_field(&self) -> Seq<char> {
        match self {
            LogError::ConfigurationError { parameter, .. } => parameter@,
            LogError::ValidationError { field, .. } => field@,
            _ => "logging"@,
        }
    }

    /// Check if this is a retryable error
    pub fn is_retryable(&self) -> (r: bool)
        ensures
            r == self.spec_is_retryable(),
    {
        match self {
            LogError::IoError { .. } => true,
            LogError::ChannelError { .. } => true,
            LogError::Timeout { .. } => true,
            LogError::AsyncError { .. } => true,
            _ => false,
        }
    }

    /// Check if this is a client error
    pub fn is_client_error(&self) -> (r: bool)
        ensures
            r == self.spec_is_client_error(),
    {
        match self {
            LogError::ConfigurationError { .. } => true,
            LogError::InvalidLogLevel { .. } => true,
            LogError::InvalidFormat { .. } => true,
            LogError::ValidationError { .. } => true,
            LogError::RecordTooLarge { .. } => true,
            _ => false,
        }
    }

    /// Check if this is a server error
    pub fn is_server_error(&self) -> (r: bool)
        ensures
            r == !self.spec_is_client_error(),
    {
        !self.is_client_error()
    }

    /// Get error category
    pub fn category(&self) -> (r: &'static str)
        ensures
            r@ == self.spec_category(),
    {
        match self {
            LogError::InitializationError { .. } => "initialization",
            LogError::AppenderError { .. } => "appender",
            LogError::FormatterError { .. } => "formatter",
            LogError::FilterError { .. } => "filter",
            LogError::ContextError { .. } => "context",
            LogError::MetricsError { .. } => "metrics",
            LogError::ConfigurationError { .. } => "configuration",
            LogError::IoError { .. } => "io",
            LogError::SerializationError { .. } => "serialization",
            LogError::BufferOverflow { .. } => "buffer",
            LogError::ChannelError { .. } => "channel",
            LogError::Timeout { .. } => "timeout",
            LogError::PermissionDenied { .. } => "permission",
            LogError::ResourceExhausted { .. } => "resource",
            LogError::InvalidLogLevel { .. } => "level",
            LogError::InvalidFormat { .. } => "format",
            LogError::ValidationError { .. } => "validation",
            LogError::RecordTooLarge { .. } => "size",
            LogError::AsyncError { .. } => "async",
            LogError::ShutdownError { .. } => "shutdown",
            LogError::Generic { .. } => "generic",
        }
    }

    /// Get error severity
    pub fn severity(&self) -> (r: ErrorSeverity)
        ensures
            r == self.spec_severity(),
    {
        match self {
            LogError::InitializationError { .. } => ErrorSeverity::Critical,
            LogError::AppenderError { .. } => ErrorSeverity::Error,
            LogError::FormatterError { .. } => ErrorSeverity::Error,
            LogError::FilterError { .. } => ErrorSeverity::Error,
            LogError::ContextError { .. } => ErrorSeverity::Error,
            LogError::MetricsError { .. } => ErrorSeverity::Warning,
            LogError::ConfigurationError { .. } => ErrorSeverity::Error,
            LogError::IoError { .. } => ErrorSeverity::Error,
            LogError::SerializationError { .. } => ErrorSeverity::Error,
            LogError::BufferOverflow { .. } => ErrorSeverity::Warning,
            LogError::ChannelError { .. } => ErrorSeverity::Error,
            LogError::Timeout { .. } => ErrorSeverity::Warning,
            LogError::PermissionDenied { .. } => ErrorSeverity::Error,
            LogError::ResourceExhausted { .. } => ErrorSeverity::Critical,
            LogError::InvalidLogLevel { .. } => ErrorSeverity::Error,
            LogError::InvalidFormat { .. } => ErrorSeverity::Error,
            LogError::ValidationError { .. } => ErrorSeverity::Error,
            LogError::RecordTooLarge { .. } => ErrorSeverity::Warning,
            LogError::AsyncError { .. } => ErrorSeverity::Error,
            LogError::ShutdownError { .. } => ErrorSeverity::Error,
            LogError::Generic { .. } => ErrorSeverity::Error,
        }
    }

    /// The human-readable message, as the error's `Display` shows it.
    pub fn to_string(&self) -> (r: String)
        ensures
            r@ == self.spec_message(),
    {
        match self {
            LogError::InitializationError { logger_name, message, .. } => {
                let mut out = owned("Initialization error for logger '");
                push_str(&mut out, logger_name.as_str());
                push_str(&mut out, "': ");
                push_str(&mut out, message.as_str());
                out
            }
            LogError::AppenderError { appender_name, operation, message, .. } => {
                let mut out = owned("Appender '");
                push_str(&mut out, appender_name.as_str());
                push_str(&mut out, "' error during '");
                push_str(&mut out, operation.as_str());
                push_str(&mut out, "': ");
                push_str(&mut out, message.as_str());
                out
            }
            LogError::FormatterError { formatter_name, message, .. } => {
                let mut out = owned("Formatter '");
                push_str(&mut out, formatter_name.as_str());
                push_str(&mut out, "' error: ");
                push_str(&mut out, message.as_str());
                out
            }
            LogError::FilterError { filter_name, message, .. } => {
                let mut out = owned("Filter '");
                push_str(&mut out, filter_name.as_str());
                push_str(&mut out, "' error: ");
                push_str(&mut out, message.as_str());
                out
            }
            LogError::ContextError { operation, message, .. } => {
                let mut out = owned("Context error during '");
                push_str(&mut out, operation.as_str());
                push_str(&mut out, "': ");
                push_str(&mut out, message.as_str());
                out
            }
            LogError::MetricsError { operation, message, .. } => {
                let mut out = owned("Metrics error during '");
                push_str(&mut out, operation.as_str());
                push_str(&mut out, "': ");
                push_str(&mut out, message.as_str());
                out
            }
            LogError::ConfigurationError { parameter, message, .. } => {
                let mut out = owned("Configuration error for parameter '");
                push_str(&mut out, parameter.as_str());
                push_str(&mut out, "': ");
                push_str(&mut out, message.as_str());
                out
            }
            LogError::IoError { operation, path: Some(p), message } => {
                let mut out = owned("I/O error during '");
                push_str(&mut out, operation.as_str());
                push_str(&mut out, "' on '");
                push_str(&mut out, p.as_str());
                push_str(&mut out, "': ");
                push_str(&mut out, message.as_str());
                out
            }
            LogError::IoError { operation, path: None, message } => {
                let mut out = owned("I/O error during '");
                push_str(&mut out, operation.as_str());
                push_str(&mut out, "': ");
                push_str(&mut out, message.as_str());
                out
            }
            LogError::SerializationError { operation, message, .. } => {
                let mut out = owned("Serialization error during '");
                push_str(&mut out, operation.as_str());
                push_str(&mut out, "': ");
                push_str(&mut out, message.as_str());
                out
            }
            LogError::BufferOverflow { buffer_name, size, capacity, .. } => {
                let mut out = owned("Buffer overflow in '");
                push_str(&mut out, buffer_name.as_str());
                push_str(&mut out, "': ");
                let t = u64_to_decimal(*size as u64);
                push_str(&mut out, t.as_str());
                push_str(&mut out, " bytes exceeds capacity ");
                let t = u64_to_decimal(*capacity as u64);
                push_str(&mut out, t.as_str());
                out
            }
            LogError::ChannelError { operation, message, .. } => {
                let mut out = owned("Channel error during '");
                push_str(&mut out, operation.as_str());
                push_str(&mut out, "': ");
                push_str(&mut out, message.as_str());
                out
            }
            LogError::Timeout { operation, timeout_ms, .. } => {
                let mut out = owned("Timeout during '");
                push_str(&mut out, operation.as_str());
                push_str(&mut out, "' after ");
                let t = u64_to_decimal(*timeout_ms as u64);
                push_str(&mut out, t.as_str());
                push_str(&mut out, "ms");
                out
            }
            LogError::PermissionDenied { operation, resource, .. } => {
                let mut out = owned("Permission denied to '");
                push_str(&mut out, operation.as_str());
                push_str(&mut out, "' on '");
                push_str(&mut out, resource.as_str());
                push_str(&mut out, "'");
                out
            }
            LogError::ResourceExhausted { resource_type, current_usage, limit, .. } => {
                let mut out = owned("Resource '");
                push_str(&mut out, resource_type.as_str());
                push_str(&mut out, "' exhausted: ");
                let t = u64_to_decimal(*current_usage as u64);
                push_str(&mut out, t.as_str());
                push_str(&mut out, "/");
                let t = u64_to_decimal(*limit as u64);
                push_str(&mut out, t.as_str());
                out
            }
            LogError::InvalidLogLevel { level, valid_levels } => {
                let mut out = owned("Invalid log level '");
                push_str(&mut out, level.as_str());
                push_str(&mut out, "'. Valid levels: ");
                let joined = join(valid_levels, ", ");
                let quoted = debug_str(joined.as_str());
                push_str(&mut out, quoted.as_str());
                out
            }
            LogError::InvalidFormat { format, message, .. } => {
                let mut out = owned("Invalid format '");
                push_str(&mut out, format.as_str());
                push_str(&mut out, "': ");
                push_str(&mut out, message.as_str());
                out
            }
            LogError::ValidationError { field, value, reason, .. } => {
                let mut out = owned("Validation error for field '");
                push_str(&mut out, field.as_str());
                push_str(&mut out, "' with value '");
                push_str(&mut out, value.as_str());
                push_str(&mut out, "': ");
                push_str(&mut out, reason.as_str());
                out
            }
            LogError::RecordTooLarge { size_bytes, max_size_bytes, .. } => {
                let mut out = owned("Log record too large: ");
                let t = u64_to_decimal(*size_bytes as u64);
                push_str(&mut out, t.as_str());
                push_str(&mut out, " bytes exceeds maximum ");
                let t = u64_to_decimal(*max_size_bytes as u64);
                push_str(&mut out, t.as_str());
                out
            }
            LogError::AsyncError { operation, message, .. } => {
                let mut out = owned("Async error during '");
                push_str(&mut out, operation.as_str());
                push_str(&mut out, "': ");
                push_str(&mut out, message.as_str());
                out
            }
            LogError::ShutdownError { logger_name, message, .. } => {
                let mut out = owned("Shutdown error for logger '");
                push_str(&mut out, logger_name.as_str());
                push_str(&mut out, "': ");
                push_str(&mut out, message.as_str());
                out
            }
            LogError::Generic { component, operation, message, .. } => {
                let mut out = owned("Logging error in '");
                push_str(&mut out, component.as_str());
                push_str(&mut out, "' during '");
                push_str(&mut out, operation.as_str());
                push_str(&mut out, "': ");
                push_str(&mut out, message.as_str());
                out
            }
        }
    }

    /// The application error this logging error becomes: its message, and
    /// the offending parameter or field where there is one.
    pub fn into_app_error(self) -> (r: AppError)
        ensures
            r matches AppError::Logging { message, field }
                && message@ == self.spec_message() && field@ == self.spec_field(),
    {
        let message = self.to_string();
        let field = match self {
            LogError::ConfigurationError { parameter, .. } => parameter,
            LogError::ValidationError { field, .. } => field,
            _ => owned("logging"),
        };
        AppError::Logging { message, field }
    }
}

} // verus!
