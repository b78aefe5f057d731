//! The central application error kinds, their codes, severities and
//! user-facing messages.

use vstd::prelude::*;
use crate::text::{owned, push_str};
use crate::clock::now_millis;
use crate::api::performance::new_request_id;

verus! {

/// Central application error type
#[derive(Debug, Clone)]
pub enum AppError {
    Database { message: String, code: String },
    Cache { message: String },
    Validation { message: String, field: Option<String> },
    Authentication { message: String },
    Analysis { message: String },
    Performance { message: String },
    Io { message: String },
    Network { message: String },
    Configuration { message: String },
    Internal { message: String },
    InvalidInput { message: String },
    NotFound { resource: String },
    Config { message: String, field: String },
    Logging { message: String, field: String },
    DependencyInjection { message: String, service_id: String },
}

/// Error severity levels
#[derive(Debug, Clone, Copy, PartialEq, Eq, Structural)]
pub enum ErrorSeverity {
    Low,
    Medium,
    High,
    Critical,
}

impl AppError {
    /// The programmatic code of each kind.
    pub open spec fn spec_code(&self) -> Seq<char> {
        match self {
            AppError::Database { .. } => "DB_ERROR"@,
            AppError::Cache { .. } => "CACHE_ERROR"@,
            AppError::Validation { .. } => "VALIDATION_ERROR"@,
            AppError::Authentication { .. } => "AUTH_ERROR"@,
            AppError::Analysis { .. } => "ANALYSIS_ERROR"@,
            AppError::Performance { .. } => "PERF_ERROR"@,
            AppError::Io { .. } => "IO_ERROR"@,
            AppError::Network { .. } => "NETWORK_ERROR"@,
            AppError::Configuration { .. } => "CONFIG_ERROR"@,
            AppError::Internal { .. } => "INTERNAL_ERROR"@,
            AppError::InvalidInput { .. } => "INVALID_INPUT"@,
            AppError::NotFound { .. } => "NOT_FOUND"@,
            AppError::Config { .. } => "CONFIG_FIELD_ERROR"@,
            AppError::Logging { .. } => "LOGGING_ERROR"@,
            AppError::DependencyInjection { .. } => "DI_ERROR"@,
        }
    }

    /// The position of each kind in the declaration.
    pub open spec fn spec_kind_index(&self) -> int {
        match self {
            AppError::Database { .. } => 0,
            AppError::Cache { .. } => 1,
            AppError::Validation { .. } => 2,
            AppError::Authentication { .. } => 3,
            AppError::Analysis { .. } => 4,
            AppError::Performance { .. } => 5,
            AppError::Io { .. } => 6,
            AppError::Network { .. } => 7,
            AppError::Configuration { .. } => 8,
            AppError::Internal { .. } => 9,
            AppError::InvalidInput { .. } => 10,
            AppError::NotFound { .. } => 11,
            AppError::Config { .. } => 12,
            AppError::Logging { .. } => 13,
            AppError::DependencyInjection { .. } => 14,
        }
    }

    /// The severity of each kind.
    pub open spec fn spec_severity(&self) -> ErrorSeverity {
        match self {
            AppError::Database { .. } => ErrorSeverity::High,
            AppError::Cache { .. } => ErrorSeverity::Medium,
            AppError::Validation { .. } => ErrorSeverity::Low,
            AppError::Authentication { .. } => ErrorSeverity::High,
            AppError::Analysis { .. } => ErrorSeverity::Medium,
            AppError::Performance { .. } => ErrorSeverity::Medium,
            AppError::Io { .. } => ErrorSeverity::Medium,
            AppError::Network { .. } => ErrorSeverity::Medium,
            AppError::Configuration { .. } => ErrorSeverity::High,
            AppError::Internal { .. } => ErrorSeverity::Critical,
            AppError::InvalidInput { .. } => ErrorSeverity::Low,
            AppError::NotFound { .. } => ErrorSeverity::Low,
            AppError::Config { .. } => ErrorSeverity::High,
            AppError::Logging { .. } => ErrorSeverity::Medium,
            AppError::DependencyInjection { .. } => ErrorSeverity::High,
        }
    }

    /// Kinds the user can recover from by acting.
    pub open spec fn spec_is_user_recoverable(&self) -> bool {
        self is Validation || self is InvalidInput || self is Cache || self is Network
    }

    /// The short message of each kind.
    pub open spec fn spec_message(&self) -> Seq<char> {
        match self {
            AppError::Database { message, .. } => "Database error: "@ + message@,
            AppError::Cache { message, .. } => "Cache error: "@ + message@,
            AppError::Validation { message, .. } => "Validation error: "@ + message@,
            AppError::Authentication { message, .. } => "Authentication error: "@ + message@,
            AppError::Analysis { message, .. } => "Analysis error: "@ + message@,
            AppError::Performance { message, .. } => "Performance error: "@ + message@,
            AppError::Io { message, .. } => "IO error: "@ + message@,
            AppError::Network { message, .. } => "Network error: "@ + message@,
            AppError::Configuration { message, .. } => "Configuration error: "@ + message@,
            AppError::Internal { message, .. } => "Internal error: "@ + message@,
            AppError::InvalidInput { message, .. } => "Invalid input: "@ + message@,
            AppError::NotFound { resource, .. } => "Resource not found: "@ + resource@,
            AppError::Config { message, .. } => "Configuration error: "@ + message@,
            AppError::Logging { message, .. } => "Logging error: "@ + message@,
            AppError::DependencyInjection { message, .. } => "Dependency injection error: "@ + message@,
        }
    }

    /// The user-facing message of each kind, with a suggestion.
    pub open spec fn spec_user_message(&self) -> Seq<char> {
        match self {
            AppError::Database { message, .. } => "Database operation failed. Please try again. ("@ + message@ + ")"@,
            AppError::Cache { message, .. } => "Cache operation failed. ("@ + message@ + ")"@,
            AppError::Validation { message, field } => match field {
                Some(f) => "Invalid value for "@ + f@ + ": "@ + message@,
                None => "Invalid input: "@ + message@,
            },
            AppError::Authentication { message, .. } => "Authentication failed: "@ + message@,
            AppError::Analysis { message, .. } => "Analysis failed: "@ + message@ + ". Please check your input parameters."@,
            AppError::Performance { message, .. } => "Performance issue detected: "@ + message@,
            AppError::Io { message, .. } => "File operation failed: "@ + message@,
            AppError::Network { message, .. } => "Network error: "@ + message@ + ". Please check your connection."@,
            AppError::Configuration { message, .. } => "Configuration error: "@ + message@ + ". Please check your settings."@,
            AppError::Internal { message, .. } => "An unexpected error occurred. Please try again or contact support. ("@ + message@ + ")"@,
            AppError::InvalidInput { message, .. } => "Invalid input: "@ + message@,
            AppError::NotFound { resource, .. } => resource@ + " not found."@,
            AppError::Config { message, .. } => "Configuration error: "@ + message@ + ". Please check your settings."@,
            AppError::Logging { message, .. } => "Logging failed: "@ + message@,
            AppError::DependencyInjection { message, .. } => "Service setup failed: "@ + message@,
        }
    }

    /// Get error code for programmatic handling
    pub fn code(&self) -> (r: &'static str)
        ensures
            r@ == self.spec_code(),
    {
        match self {
            AppError::Database { .. } => "DB_ERROR",
            AppError::Cache { .. } => "CACHE_ERROR",
            AppError::Validation { .. } => "VALIDATION_ERROR",
            AppError::Authentication { .. } => "AUTH_ERROR",
            AppError::Analysis { .. } => "ANALYSIS_ERROR",
            AppError::Performance { .. } => "PERF_ERROR",
            AppError::Io { .. } => "IO_ERROR",
            AppError::Network { .. } => "NETWORK_ERROR",
            AppError::Configuration { .. } => "CONFIG_ERROR",
            AppError::Internal { .. } => "INTERNAL_ERROR",
            AppError::InvalidInput { .. } => "INVALID_INPUT",
            AppError::NotFound { .. } => "NOT_FOUND",
            AppError::Config { .. } => "CONFIG_FIELD_ERROR",
            AppError::Logging { .. } => "LOGGING_ERROR",
            AppError::DependencyInjection { .. } => "DI_ERROR",
        }
    }

    /// Get user-friendly error message with suggestions
    pub fn user_message(&self) -> (r: String)
        ensures
            r@ == self.spec_user_message(),
    {
        match self {
            AppError::Database { message, .. } => {
                let mut out = owned("Database operation failed. Please try again. (");
                push_str(&mut out, message.as_str());
                push_str(&mut out, ")");
                out
            }
            AppError::Cache { message, .. } => {
                let mut out = owned("Cache operation failed. (");
                push_str(&mut out, message.as_str());
                push_str(&mut out, ")");
                out
            }
            AppError::Validation { message, field: Some(f) } => {
                let mut out = owned("Invalid value for ");
                push_str(&mut out, f.as_str());
                push_str(&mut out, ": ");
                push_str(&mut out, message.as_str());
                out
            }
            AppError::Validation { message, field: None } => {
                let mut out = owned("Invalid input: ");
                push_str(&mut out, message.as_str());
                out
            }
            AppError::Authentication { message, .. } => {
                let mut out = owned("Authentication failed: ");
                push_str(&mut out, message.as_str());
                out
            }
            AppError::Analysis { message, .. } => {
                let mut out = owned("Analysis failed: ");
                push_str(&mut out, message.as_str());
                push_str(&mut out, ". Please check your input parameters.");
                out
            }
            AppError::Performance { message, .. } => {
                let mut out = owned("Performance issue detected: ");
                push_str(&mut out, message.as_str());
                out
            }
            AppError::Io { message, .. } => {
                let mut out = owned("File operation failed: ");
                push_str(&mut out, message.as_str());
                out
            }
            AppError::Network { message, .. } => {
                let mut out = owned("Network error: ");
                push_str(&mut out, message.as_str());
                push_str(&mut out, ". Please check your connection.");
                out
            }
            AppError::Configuration { message, .. } => {
                let mut out = owned("Configuration error: ");
                push_str(&mut out, message.as_str());
                push_str(&mut out, ". Please check your settings.");
                out
            }
            AppError::Internal { message, .. } => {
                let mut out = owned("An unexpected error occurred. Please try again or contact support. (");
                push_str(&mut out, message.as_str());
                push_str(&mut out, ")");
                out
            }
            AppError::InvalidInput { message, .. } => {
                let mut out = owned("Invalid input: ");
                push_str(&mut out, message.as_str());
                out
            }
            AppError::NotFound { resource, .. } => {
                let mut out = owned(resource.as_str());
                push_str(&mut out, " not found.");
                out
            }
            AppError::Config { message, .. } => {
                let mut out = owned("Configuration error: ");
                push_str(&mut out, message.as_str());
                push_str(&mut out, ". Please check your settings.");
                out
            }
            AppError::Logging { message, .. } => {
                let mut out = owned("Logging failed: ");
                push_str(&mut out, message.as_str());
                out
            }
            AppError::DependencyInjection { message, .. } => {
                let mut out = owned("Service setup failed: ");
                push_str(&mut out, message.as_str());
                out
            }
        }
    }

    /// Get error severity for logging and monitoring
    pub fn severity(&self) -> (r: ErrorSeverity)
        ensures
            r == self.spec_severity(),
    {
        match self {
            AppError::Database { .. } => ErrorSeverity::High,
            AppError::Cache { .. } => ErrorSeverity::Medium,
            AppError::Validation { .. } => ErrorSeverity::Low,
            AppError::Authentication { .. } => ErrorSeverity::High,
            AppError::Analysis { .. } => ErrorSeverity::Medium,
            AppError::Performance { .. } => ErrorSeverity::Medium,
            AppError::Io { .. } => ErrorSeverity::Medium,
            AppError::Network { .. } => ErrorSeverity::Medium,
            AppError::Configuration { .. } => ErrorSeverity::High,
            AppError::Internal { .. } => ErrorSeverity::Critical,
            AppError::InvalidInput { .. } => ErrorSeverity::Low,
            AppError::NotFound { .. } => ErrorSeverity::Low,
            AppError::Config { .. } => ErrorSeverity::High,
            AppError::Logging { .. } => ErrorSeverity::Medium,
            AppError::DependencyInjection { .. } => ErrorSeverity::High,
        }
    }

    /// Check if error is recoverable by user action
    pub fn is_user_recoverable(&self) -> (r: bool)
        ensures
            r == self.spec_is_user_recoverable(),
    {
        match self {
            AppError::Validation { .. } | AppError::InvalidInput { .. } | AppError::Cache { .. }
            | AppError::Network { .. } => true,
            _ => false,
        }
    }

    /// The short message, as the error's `Display` shows it.
    pub fn to_string(&self) -> (r: String)
        ensures
            r@ == self.spec_message(),
    {
        match self {
            AppError::Database { message, .. } => {
                let mut out = owned("Database error: ");
                push_str(&mut out, message.as_str());
                out
            }
            AppError::Cache { message, .. } => {
                let mut out = owned("Cache error: ");
                push_str(&mut out, message.as_str());
                out
            }
            AppError::Validation { message, .. } => {
                let mut out = owned("Validation error: ");
                push_str(&mut out, message.as_str());
                out
            }
            AppError::Authentication { message, .. } => {
                let mut out = owned("Authentication error: ");
                push_str(&mut out, message.as_str());
                out
            }
            AppError::Analysis { message, .. } => {
                let mut out = owned("Analysis error: ");
                push_str(&mut out, message.as_str());
                out
            }
            AppError::Performance { message, .. } => {
                let mut out = owned("Performance error: ");
                push_str(&mut out, message.as_str());
                out
            }
            AppError::Io { message, .. } => {
                let mut out = owned("IO error: ");
                push_str(&mut out, message.as_str());
                out
            }
            AppError::Network { message, .. } => {
                let mut out = owned("Network error: ");
                push_str(&mut out, message.as_str());
                out
            }
            AppError::Configuration { message, .. } => {
                let mut out = owned("Configuration error: ");
                push_str(&mut out, message.as_str());
                out
            }
            AppError::Internal { message, .. } => {
                let mut out = owned("Internal error: ");
                push_str(&mut out, message.as_str());
                out
            }
            AppError::InvalidInput { message, .. } => {
                let mut out = owned("Invalid input: ");
                push_str(&mut out, message.as_str());
                out
            }
            AppError::NotFound { resource, .. } => {
                let mut out = owned("Resource not found: ");
                push_str(&mut out, resource.as_str());
                out
            }
            AppError::Config { message, .. } => {
                let mut out = owned("Configuration error: ");
                push_str(&mut out, message.as_str());
                out
            }
            AppError::Logging { message, .. } => {
                let mut out = owned("Logging error: ");
                push_str(&mut out, message.as_str());
                out
            }
            AppError::DependencyInjection { message, .. } => {
                let mut out = owned("Dependency injection error: ");
                push_str(&mut out, message.as_str());
                out
            }
        }
    }
}


/// What is known about where an error happened: a fresh id, when (in
/// milliseconds since the Unix epoch), how severe, and optionally the
/// user, session, operation and request; `metadata` is JSON text.
#[derive(Debug)]
pub struct ErrorContext {
    pub error_id: String,
    pub timestamp: i64,
    pub severity: ErrorSeverity,
    pub user_id: Option<String>,
    pub session_id: Option<String>,
    pub operation: Option<String>,
    pub request_id: Option<String>,
    pub metadata: String,
}

/// The view of an optional string.
pub open spec fn opt_str(o: Option<String>) -> Option<Seq<char>> {
    match o {
        Some(s) => Some(s@),
        None => None,
    }
}

/// A copy of an optional string.
pub fn copy_opt(o: &Option<String>) -> (r: Option<String>)
    ensures
        opt_str(r) == opt_str(*o),
{
    match o {
        Some(s) => Some(s.clone()),
        None => None,
    }
}

impl ErrorContext {
    /// `b` holds the same text and values as `self`.
    pub open spec fn same_as(&self, b: ErrorContext) -> bool {
        &&& self.error_id@ == b.error_id@
        &&& self.timestamp == b.timestamp
        &&& self.severity == b.severity
        &&& opt_str(self.user_id) == opt_str(b.user_id)
        &&& opt_str(self.session_id) == opt_str(b.session_id)
        &&& opt_str(self.operation) == opt_str(b.operation)
        &&& opt_str(self.request_id) == opt_str(b.request_id)
        &&& self.metadata@ == b.metadata@
    }

    /// A context with a fresh random id, stamped with the current time,
    /// without user, session, operation or request, and with an empty JSON
    /// object as metadata.
    pub fn new(severity: ErrorSeverity) -> (r: Self)
        ensures
            r.severity == severity,
            r.user_id is None && r.session_id is None && r.operation is None && r.request_id is None,
            r.metadata@ == "{}"@,
    {
        ErrorContext {
            error_id: new_request_id(),
            timestamp: now_millis(),
            severity,
            user_id: None,
            session_id: None,
            operation: None,
            request_id: None,
            metadata: owned("{}"),
        }
    }

    /// Sets the user.
    pub fn with_user(self, user_id: String) -> (r: Self)
        ensures
            r == (ErrorContext { user_id: Some(user_id), ..self }),
    {
        ErrorContext { user_id: Some(user_id), ..self }
    }

    /// Sets the session.
    pub fn with_session(self, session_id: String) -> (r: Self)
        ensures
            r == (ErrorContext { session_id: Some(session_id), ..self }),
    {
        ErrorContext { session_id: Some(session_id), ..self }
    }

    /// Sets the operation.
    pub fn with_operation(self, operation: String) -> (r: Self)
        ensures
            r == (ErrorContext { operation: Some(operation), ..self }),
    {
        ErrorContext { operation: Some(operation), ..self }
    }

    /// Sets the metadata (JSON text).
    pub fn with_metadata(self, metadata: String) -> (r: Self)
        ensures
            r == (ErrorContext { metadata, ..self }),
    {
        ErrorContext { metadata, ..self }
    }

    /// A copy of the context.
    pub fn duplicate(&self) -> (r: Self)
        ensures
            self.same_as(r),
    {
        ErrorContext {
            error_id: self.error_id.clone(),
            timestamp: self.timestamp,
            severity: self.severity,
            user_id: copy_opt(&self.user_id),
            session_id: copy_opt(&self.session_id),
            operation: copy_opt(&self.operation),
            request_id: copy_opt(&self.request_id),
            metadata: self.metadata.clone(),
        }
    }
}

/// Each kind of application error has its own code: two errors have the same
/// code exactly when they are of the same kind.
pub proof fn lemma_code_identifies_kind(e1: AppError, e2: AppError)
    ensures
        (e1.spec_code() == e2.spec_code()) <==> (e1.spec_kind_index() == e2.spec_kind_index()),
{
    reveal_strlit("DB_ERROR");
    reveal_strlit("CACHE_ERROR");
    reveal_strlit("VALIDATION_ERROR");
    reveal_strlit("AUTH_ERROR");
    reveal_strlit("ANALYSIS_ERROR");
    reveal_strlit("PERF_ERROR");
    reveal_strlit("IO_ERROR");
    reveal_strlit("NETWORK_ERROR");
    reveal_strlit("CONFIG_ERROR");
    reveal_strlit("INTERNAL_ERROR");
    reveal_strlit("INVALID_INPUT");
    reveal_strlit("NOT_FOUND");
    reveal_strlit("CONFIG_FIELD_ERROR");
    reveal_strlit("LOGGING_ERROR");
    reveal_strlit("DI_ERROR");
    assert("DB_ERROR"@.len() == 8 && "DB_ERROR"@[0] == 'D' && "DB_ERROR"@[1] == 'B');
    assert("CACHE_ERROR"@.len() == 11 && "CACHE_ERROR"@[0] == 'C' && "CACHE_ERROR"@[1] == 'A');
    assert("VALIDATION_ERROR"@.len() == 16 && "VALIDATION_ERROR"@[0] == 'V' && "VALIDATION_ERROR"@[1] == 'A');
    assert("AUTH_ERROR"@.len() == 10 && "AUTH_ERROR"@[0] == 'A' && "AUTH_ERROR"@[1] == 'U');
    assert("ANALYSIS_ERROR"@.len() == 14 && "ANALYSIS_ERROR"@[0] == 'A' && "ANALYSIS_ERROR"@[1] == 'N');
    assert("PERF_ERROR"@.len() == 10 && "PERF_ERROR"@[0] == 'P' && "PERF_ERROR"@[1] == 'E');
    assert("IO_ERROR"@.len() == 8 && "IO_ERROR"@[0] == 'I' && "IO_ERROR"@[1] == 'O');
    assert("NETWORK_ERROR"@.len() == 13 && "NETWORK_ERROR"@[0] == 'N' && "NETWORK_ERROR"@[1] == 'E');
    assert("CONFIG_ERROR"@.len() == 12 && "CONFIG_ERROR"@[0] == 'C' && "CONFIG_ERROR"@[1] == 'O');
    assert("INTERNAL_ERROR"@.len() == 14 && "INTERNAL_ERROR"@[0] == 'I' && "INTERNAL_ERROR"@[1] == 'N');
    assert("INVALID_INPUT"@.len() == 13 && "INVALID_INPUT"@[0] == 'I' && "INVALID_INPUT"@[1] == 'N');
    assert("NOT_FOUND"@.len() == 9 && "NOT_FOUND"@[0] == 'N' && "NOT_FOUND"@[1] == 'O');
    assert("CONFIG_FIELD_ERROR"@.len() == 18 && "CONFIG_FIELD_ERROR"@[0] == 'C' && "CONFIG_FIELD_ERROR"@[1] == 'O');
    assert("LOGGING_ERROR"@.len() == 13 && "LOGGING_ERROR"@[0] == 'L' && "LOGGING_ERROR"@[1] == 'O');
    assert("DI_ERROR"@.len() == 8 && "DI_ERROR"@[0] == 'D' && "DI_ERROR"@[1] == 'I');
}

} // verus!

