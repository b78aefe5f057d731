use super_lotto::logging::filter::{FieldCondition, FieldFilter, FieldOperator, LogFilter, MessageFilter};
use super_lotto::logging::logger::TargetFilter;
use super_lotto::logging::metrics::{
    AggregationMode, DefaultLogMetricsCollector, LogMetrics, MetricsAggregator, MetricsCollectionConfig, top_counts,
};
use super_lotto::logging::traits::{LogFieldValue, LogLevel, SimpleLogRecord};

fn record(level: LogLevel, target: &str, message: &str) -> SimpleLogRecord {
    SimpleLogRecord::new(level, target.to_string(), message.to_string())
}

fn count(v: &[(String, u64)], k: &str) -> Option<u64> {
    v.iter().find(|(n, _)| n == k).map(|(_, c)| *c)
}

#[test]
fn log_metrics_counts() {
    let mut m = LogMetrics::new();
    m.record_log(LogLevel::Error, "db", 10, 100);
    m.record_log(LogLevel::Warn, "db", 5, 200);
    m.record_log(LogLevel::Info, "api", 1, 300);
    m.record_log(LogLevel::Fatal, "api", 1, 400);
    assert_eq!(m.total_logs, 4);
    assert_eq!(m.total_bytes, 17);
    assert_eq!(m.errors, 2);
    assert_eq!(m.warnings, 1);
    assert_eq!(m.first_log, Some(100));
    assert_eq!(m.last_log, Some(400));
    assert_eq!(count(&m.logs_by_level, "error"), Some(1));
    assert_eq!(count(&m.logs_by_level, "warn"), Some(1));
    assert_eq!(count(&m.logs_by_target, "db"), Some(2));
    assert_eq!(count(&m.logs_by_target, "api"), Some(2));
}

#[test]
fn collector_records_and_details() {
    let mut c = DefaultLogMetricsCollector::new();
    c.record_log(&record(LogLevel::Warn, "db", "héllo"), 1_000);
    c.record_log(&record(LogLevel::Warn, "db", "ab"), 2_000);
    c.record_log(&record(LogLevel::Info, "api", "x"), 3_000);
    let m = c.get_metrics();
    assert_eq!(m.total_logs, 3);
    // "héllo" is six bytes in UTF-8
    assert_eq!(m.total_bytes, 9);
    let t = c.get_target_metrics("db");
    assert_eq!(t.total_logs, 2);
    assert_eq!(t.total_bytes, 8);
    assert_eq!(t.warnings, 2);
    assert_eq!(t.first_log, Some(1_000));
    assert_eq!(t.last_log, Some(2_000));
    assert_eq!(count(&t.logs_by_level, "warn"), Some(2));
    let l = c.get_level_metrics(LogLevel::Info);
    assert_eq!(l.total_logs, 1);
    assert_eq!(l.warnings, 0);
    let top = c.get_top_targets(1);
    assert_eq!(top, vec![("db".to_string(), 2)]);
}

#[test]
fn collector_cleanup_and_reset() {
    let mut c = DefaultLogMetricsCollector::with_config(MetricsCollectionConfig { max_history_hours: 1, ..MetricsCollectionConfig::default() });
    c.record_log(&record(LogLevel::Info, "old", "m"), 0);
    c.record_log(&record(LogLevel::Info, "new", "m"), 3_600_000);
    c.cleanup_old_metrics(3_600_001);
    assert_eq!(c.get_target_metrics("old").total_logs, 0);
    assert_eq!(c.get_target_metrics("new").total_logs, 1);
    c.reset_metrics();
    assert_eq!(c.get_metrics().total_logs, 0);
    assert_eq!(c.get_top_targets(5).len(), 0);
}

#[test]
fn collector_without_detail() {
    let config = MetricsCollectionConfig { collect_per_target: false, collect_per_level: false, ..MetricsCollectionConfig::default() };
    let mut c = DefaultLogMetricsCollector::with_config(config);
    c.record_log(&record(LogLevel::Info, "a", "m"), 5);
    assert_eq!(c.get_metrics().total_logs, 1);
    assert_eq!(c.get_target_metrics("a").total_logs, 0);
}

#[test]
fn top_counts_orders_by_count() {
    let v = vec![("a".to_string(), 1u64), ("b".to_string(), 5), ("c".to_string(), 3)];
    let top = top_counts(&v, 2);
    assert_eq!(top, vec![("b".to_string(), 5), ("c".to_string(), 3)]);
    assert_eq!(top_counts(&v, 10).len(), 3);
}

#[test]
fn aggregate_sum_and_max() {
    let mut a = LogMetrics::new();
    a.record_log(LogLevel::Info, "x", 4, 50);
    let mut b = LogMetrics::new();
    b.record_log(LogLevel::Info, "x", 6, 20);
    b.record_log(LogLevel::Error, "y", 1, 90);
    let list = vec![a, b];
    let s = MetricsAggregator::aggregate_sum(&list);
    assert_eq!(s.total_logs, 3);
    assert_eq!(s.total_bytes, 11);
    assert_eq!(s.errors, 1);
    assert_eq!(s.first_log, Some(20));
    assert_eq!(s.last_log, Some(90));
    assert_eq!(count(&s.logs_by_target, "x"), Some(2));
    let m = MetricsAggregator::aggregate_max(&list);
    assert_eq!(m.total_logs, 2);
    assert_eq!(MetricsAggregator::aggregate_max(&vec![]).total_logs, 0);
    let agg = MetricsAggregator::new(AggregationMode::Sum);
    assert_eq!(agg.metadata().description, "Metrics aggregator with Sum mode");
}

#[test]
fn logger_target_filter() {
    let f = TargetFilter::new(vec!["db".to_string(), "db".to_string()]);
    assert!(f.should_log(&record(LogLevel::Info, "db", "m")));
    assert!(!f.should_log(&record(LogLevel::Info, "api", "m")));
    let f = f.allow_target("api".to_string());
    assert!(f.should_log(&record(LogLevel::Info, "api", "m")));
    let open = TargetFilter::new(vec![]);
    assert!(open.should_log(&record(LogLevel::Info, "anything", "m")));
}

fn with_fields(fields: Vec<(&str, LogFieldValue)>) -> SimpleLogRecord {
    let mut r = record(LogLevel::Info, "t", "m");
    for (k, v) in fields {
        r = r.with_field(k.to_string(), v);
    }
    r
}

fn cond(name: &str, operator: FieldOperator, value: LogFieldValue) -> FieldCondition {
    FieldCondition { field_name: name.to_string(), operator, value }
}

#[test]
fn field_filter_conditions() {
    let r = with_fields(vec![
        ("n", LogFieldValue::Integer(5)),
        ("s", LogFieldValue::String("hello world".to_string())),
        ("f", LogFieldValue::Float(1.5f64.to_bits())),
    ]);
    assert!(FieldFilter::new().should_log(&r));
    let all = FieldFilter::new()
        .condition(cond("n", FieldOperator::GreaterThan, LogFieldValue::Integer(3)))
        .condition(cond("s", FieldOperator::StartsWith, LogFieldValue::String("hello".to_string())))
        .condition(cond("f", FieldOperator::Equals, LogFieldValue::Float(1.5f64.to_bits())))
        .condition(cond("missing", FieldOperator::NotExists, LogFieldValue::Null));
    assert!(all.should_log(&r));
    let failing = FieldFilter::new()
        .condition(cond("n", FieldOperator::LessThan, LogFieldValue::Integer(3)))
        .condition(cond("s", FieldOperator::Contains, LogFieldValue::String("world".to_string())));
    assert!(!failing.should_log(&r));
    let any = FieldFilter::new()
        .require_all(false)
        .condition(cond("n", FieldOperator::LessThan, LogFieldValue::Integer(3)))
        .condition(cond("s", FieldOperator::EndsWith, LogFieldValue::String("world".to_string())));
    assert!(any.should_log(&r));
}

#[test]
fn field_filter_float_semantics() {
    let nan = f64::NAN.to_bits();
    let r = with_fields(vec![("z", LogFieldValue::Float((-0.0f64).to_bits())), ("q", LogFieldValue::Float(nan))]);
    let zero = FieldFilter::new().condition(cond("z", FieldOperator::Equals, LogFieldValue::Float(0.0f64.to_bits())));
    assert!(zero.should_log(&r));
    let nan_eq = FieldFilter::new().condition(cond("q", FieldOperator::Equals, LogFieldValue::Float(nan)));
    assert!(!nan_eq.should_log(&r));
    let nan_gt = FieldFilter::new().condition(cond("q", FieldOperator::GreaterThan, LogFieldValue::Float(0.0f64.to_bits())));
    assert!(!nan_gt.should_log(&r));
    let neg = FieldFilter::new().condition(cond("z", FieldOperator::GreaterThan, LogFieldValue::Float((-1.0f64).to_bits())));
    assert!(neg.should_log(&r));
}

#[test]
fn field_filter_objects_ignore_order() {
    let a = LogFieldValue::Object(vec![("x".to_string(), LogFieldValue::Integer(1)), ("y".to_string(), LogFieldValue::Boolean(true))]);
    let b = LogFieldValue::Object(vec![("y".to_string(), LogFieldValue::Boolean(true)), ("x".to_string(), LogFieldValue::Integer(1))]);
    let r = with_fields(vec![("o", a)]);
    let f = FieldFilter::new().condition(cond("o", FieldOperator::Equals, b));
    assert!(f.should_log(&r));
    let c = LogFieldValue::Object(vec![("x".to_string(), LogFieldValue::Integer(2)), ("y".to_string(), LogFieldValue::Boolean(true))]);
    let g = FieldFilter::new().condition(cond("o", FieldOperator::NotEquals, c));
    assert!(g.should_log(&r));
}

#[test]
fn message_filter_in_place_patterns() {
    let mut f = MessageFilter::new();
    f.add_exclude_pattern("secret".to_string());
    f.add_include_pattern("^user".to_string());
    assert!(f.should_log(&record(LogLevel::Info, "t", "user logged in")));
    assert!(!f.should_log(&record(LogLevel::Info, "t", "user secret")));
    assert!(!f.should_log(&record(LogLevel::Info, "t", "admin logged in")));
}
