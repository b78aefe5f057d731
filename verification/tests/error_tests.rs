use super_lotto::error::context::{ErrorContextManager, ErrorStats as ContextStats};
use super_lotto::error::logger::{needs_rotation, recent_lines, stats_since, ErrorStats, LoggedError};
use super_lotto::error::types::{AppError, ErrorContext, ErrorSeverity};

fn ctx(severity: ErrorSeverity, user: Option<&str>, session: Option<&str>, ts: i64) -> ErrorContext {
    let mut c = ErrorContext::new(severity);
    c.timestamp = ts;
    if let Some(u) = user {
        c = c.with_user(u.to_string());
    }
    if let Some(s) = session {
        c = c.with_session(s.to_string());
    }
    c
}

#[test]
fn error_context_builders() {
    let c = ErrorContext::new(ErrorSeverity::High)
        .with_operation("save".to_string())
        .with_metadata("{\"a\":1}".to_string());
    assert_eq!(c.severity, ErrorSeverity::High);
    assert_eq!(c.operation.as_deref(), Some("save"));
    assert_eq!(c.metadata, "{\"a\":1}");
    assert!(c.user_id.is_none());
    assert_eq!(c.error_id.len(), 36);
    let d = ErrorContext::new(ErrorSeverity::Low);
    assert_ne!(c.error_id, d.error_id);
    assert_eq!(d.metadata, "{}");
}

#[test]
fn manager_stores_and_finds() {
    let mut m = ErrorContextManager::new();
    let a = ctx(ErrorSeverity::Critical, Some("u1"), Some("s1"), 10);
    let id = a.error_id.clone();
    m.store_context(a);
    m.store_context(ctx(ErrorSeverity::Low, Some("u2"), Some("s1"), 20));
    m.store_context(ctx(ErrorSeverity::Low, Some("u1"), None, 30));
    let got = m.get_context(&id).unwrap();
    assert_eq!(got.severity, ErrorSeverity::Critical);
    assert!(m.get_context("nope").is_none());
    assert_eq!(m.get_user_contexts("u1").len(), 2);
    assert_eq!(m.get_session_contexts("s1").len(), 2);
    assert_eq!(m.get_session_contexts("s2").len(), 0);
    let stats = m.get_error_stats();
    assert_eq!(stats.total_errors, 3);
    assert_eq!(stats.critical, 1);
    assert_eq!(stats.low, 2);
    assert_eq!(stats.high, 0);
}

#[test]
fn manager_cleanup_drops_old() {
    let mut m = ErrorContextManager::new();
    m.store_context(ctx(ErrorSeverity::Medium, None, None, 100));
    m.store_context(ctx(ErrorSeverity::Medium, None, None, 900));
    m.cleanup_old_contexts(500, 1_000);
    let stats = m.get_error_stats();
    assert_eq!(stats.total_errors, 1);
    assert_eq!(stats.medium, 1);
    let empty = ContextStats::default();
    assert_eq!(empty.total_errors, 0);
}

fn logged(ts: i64, severity: ErrorSeverity, op: Option<&str>) -> LoggedError {
    LoggedError { timestamp: ts, severity, operation: op.map(|s| s.to_string()) }
}

#[test]
fn stats_since_counts_later_errors() {
    let entries = vec![
        logged(5, ErrorSeverity::Critical, Some("save")),
        logged(15, ErrorSeverity::High, Some("save")),
        logged(20, ErrorSeverity::Low, Some("load")),
        logged(25, ErrorSeverity::Low, None),
        logged(30, ErrorSeverity::High, Some("save")),
    ];
    let stats = stats_since(&entries, 10);
    assert_eq!(stats.total_errors, 4);
    assert_eq!(stats.critical, 0);
    assert_eq!(stats.high, 2);
    assert_eq!(stats.low, 2);
    let save = stats.operation_counts.iter().find(|(k, _)| k == "save").map(|(_, c)| *c);
    assert_eq!(save, Some(2));
    let top = stats.get_top_operations(1);
    assert_eq!(top, vec![("save".to_string(), 2)]);
    assert_eq!(stats.get_top_operations(5).len(), 2);
}

#[test]
fn top_operations_of_empty_stats() {
    let stats = ErrorStats { total_errors: 0, critical: 0, high: 0, medium: 0, low: 0, operation_counts: vec![] };
    assert!(stats.get_top_operations(3).is_empty());
}

#[test]
fn recent_lines_latest_first() {
    let lines: Vec<String> = vec!["a".into(), "b".into(), "c".into()];
    assert_eq!(recent_lines(&lines, 2), vec!["c".to_string(), "b".to_string()]);
    assert_eq!(recent_lines(&lines, 10).len(), 3);
    assert!(needs_rotation(11, 10));
    assert!(!needs_rotation(10, 10));
}

#[test]
fn app_error_codes_are_distinct() {
    assert_eq!(AppError::NotFound { resource: "draw".to_string() }.code(), "NOT_FOUND");
    assert_eq!(AppError::Io { message: "m".to_string() }.code(), "IO_ERROR");
    let configuration = AppError::Configuration { message: "m".to_string() };
    let config = AppError::Config { message: "m".to_string(), field: "f".to_string() };
    assert_eq!(configuration.code(), "CONFIG_ERROR");
    assert_eq!(config.code(), "CONFIG_FIELD_ERROR");
    assert_ne!(configuration.code(), config.code());
}
