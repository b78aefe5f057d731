use super_lotto::logging::formatter::{ColoredFormatter, CompactFormatter, JsonFormatter, SimpleFormatter, TemplateFormatter};
use super_lotto::logging::traits::{LogContext, LogFieldValue, LogLevel, LogScope, SimpleLogRecord};

fn render(bits: u64) -> String {
    format!("{:.2}", f64::from_bits(bits))
}

// 2024-01-02T03:04:05.678Z
const T: i64 = 1_704_164_645_678;

fn record(fields: Vec<(String, LogFieldValue)>) -> SimpleLogRecord {
    SimpleLogRecord {
        level: LogLevel::Info,
        target: "app::db::pool".to_string(),
        message: "connected".to_string(),
        timestamp: T,
        module: None,
        file: None,
        line: None,
        fields,
        id: None,
        span_id: None,
        trace_id: None,
        parent_span_id: None,
    }
}

#[test]
fn simple_formatter_line() {
    let f = SimpleFormatter::new();
    let r = record(vec![
        ("user".to_string(), LogFieldValue::String("ann".to_string())),
        ("n".to_string(), LogFieldValue::Integer(-3)),
        ("ratio".to_string(), LogFieldValue::Float(1.5f64.to_bits())),
    ]);
    assert_eq!(
        f.format(&r, &render).unwrap(),
        "2024-01-02 03:04:05.678 - INFO - app::db::pool - connected - [user=\"ann\", n=-3, ratio=1.50]"
    );
    let bare = SimpleFormatter::new().with_timestamp(false).with_target(false);
    assert_eq!(bare.format(&record(vec![]), &render).unwrap(), "INFO - connected");
}

#[test]
fn simple_formatter_with_context() {
    let f = SimpleFormatter::new().with_timestamp(false);
    let mut ctx = LogContext::new();
    ctx.add_field("req".to_string(), LogFieldValue::Duration(12));
    ctx.push_scope(LogScope::new("outer".to_string(), LogLevel::Debug));
    ctx.push_scope(LogScope::new("inner".to_string(), LogLevel::Debug));
    assert_eq!(
        f.format_with_context(&record(vec![]), &ctx, &render).unwrap(),
        "INFO - app::db::pool - connected | ctx: req=12ms | scopes: outer -> inner"
    );
}

#[test]
fn compact_formatter_line() {
    let f = CompactFormatter::new();
    assert_eq!(f.format(&record(vec![])).unwrap(), "030405.678 I pool connected");
}

#[test]
fn template_formatter_fills_placeholders() {
    let f = TemplateFormatter::new("{level}|{target}|{message}|{user}|{ctx.id}|{scopes}".to_string());
    let r = record(vec![("user".to_string(), LogFieldValue::String("ann".to_string()))]);
    assert_eq!(f.format(&r, &render).unwrap(), "INFO|app::db::pool|connected|ann|{ctx.id}|{scopes}");
    let mut ctx = LogContext::new();
    ctx.add_field("id".to_string(), LogFieldValue::Array(vec![LogFieldValue::Boolean(true), LogFieldValue::Null]));
    ctx.push_scope(LogScope::new("s".to_string(), LogLevel::Info));
    assert_eq!(f.format_with_context(&r, &ctx, &render).unwrap(), "INFO|app::db::pool|connected|ann|[true, null]|s");
}

#[test]
fn colored_formatter_colours_the_level() {
    let f = ColoredFormatter::new().with_base_formatter(SimpleFormatter::new().with_timestamp(false).with_target(false));
    assert_eq!(f.format(&record(vec![]), &render).unwrap(), "\x1b[32mINFO\x1b[0m - connected");
    let plain = ColoredFormatter::new().with_colors(false).with_base_formatter(SimpleFormatter::new().with_timestamp(false));
    assert_eq!(plain.format(&record(vec![]), &render).unwrap(), "INFO - app::db::pool - connected");
    let mut ctx = LogContext::new();
    ctx.push_scope(LogScope::new("a".to_string(), LogLevel::Info));
    let g = ColoredFormatter::new().with_base_formatter(SimpleFormatter::new().with_timestamp(false).with_level(false).with_target(false));
    assert_eq!(g.format_with_context(&record(vec![]), &ctx, &render).unwrap(), "connected | \x1b[35mscopes: a\x1b[0m");
}

#[test]
fn json_formatter_settings() {
    let j = JsonFormatter::new().with_pretty_print(true).with_metadata(false);
    assert!(j.pretty_print);
    assert!(!j.include_metadata);
    assert_eq!(j.metadata().name, "json");
}

#[test]
fn simple_formatter_unrenderable_pattern_is_an_error() {
    let f = SimpleFormatter::new().with_timestamp_format("%Y %Q".to_string());
    assert!(f.format(&record(vec![]), &render).is_err());
    let g = SimpleFormatter::new().with_timestamp_format("%Y%".to_string());
    assert!(g.format(&record(vec![]), &render).is_err());
    let h = SimpleFormatter::new().with_timestamp_format("%Y".to_string()).with_target(false);
    assert_eq!(h.format(&record(vec![]), &render).unwrap(), "2024 - INFO - connected");
}

#[test]
fn template_without_timestamp_ignores_time() {
    let f = TemplateFormatter::new("{level} {message}".to_string());
    let mut r = record(vec![]);
    r.timestamp = i64::MAX;
    assert_eq!(f.format(&r, &render).unwrap(), "INFO connected");
    let g = TemplateFormatter::new("{timestamp} {message}".to_string());
    assert!(g.format(&r, &render).is_err());
    assert_eq!(g.format(&record(vec![]), &render).unwrap(), "2024-01-02 03:04:05.678 connected");
}
