use super_lotto::error::types::AppError;
use super_lotto::logging::context::{ContextBuilder, ContextExtractor, HierarchicalContextProvider};
use super_lotto::logging::traits::{LogContext, LogFieldValue, LogLevel, LogScope};

fn text(v: Option<&LogFieldValue>) -> Option<String> {
    v.and_then(|x| x.as_string()).map(|s| s.to_string())
}

#[test]
fn extractor_fields_from_pattern() {
    let ex = ContextExtractor::new().add_field_pattern("user".to_string(), "user=".to_string());
    let ctx = ex.extract_from_message("login user=alice ok");
    assert_eq!(ctx.fields.len(), 1);
    assert_eq!(text(ctx.get_field("user_0")), Some("alice ok".to_string()));
    assert_eq!(ctx.scopes.len(), 0);
}

#[test]
fn extractor_several_captures() {
    let ex = ContextExtractor::new().add_field_pattern("x".to_string(), ",".to_string());
    let ctx = ex.extract_from_message("a,b,c");
    assert_eq!(ctx.fields.len(), 2);
    assert_eq!(text(ctx.get_field("x_0")), Some("b".to_string()));
    assert_eq!(text(ctx.get_field("x_1")), Some("c".to_string()));
}

#[test]
fn extractor_absent_pattern_gives_nothing() {
    let ex = ContextExtractor::new()
        .add_field_pattern("user".to_string(), "user=".to_string())
        .add_scope_pattern("scope:".to_string());
    let ctx = ex.extract_from_message("nothing here");
    assert!(ctx.is_empty());
}

#[test]
fn extractor_scope_from_first_capture() {
    let ex = ContextExtractor::new().add_scope_pattern("in ".to_string());
    let ctx = ex.extract_from_message("error in parser in lexer");
    assert_eq!(ctx.scopes.len(), 1);
    assert_eq!(ctx.scopes[0].name, "parser ");
    assert_eq!(ctx.scopes[0].level, LogLevel::Info);
}

#[test]
fn extractor_empty_pattern_splits_characters() {
    let ex = ContextExtractor::new().add_field_pattern("c".to_string(), String::new());
    let ctx = ex.extract_from_message("ab");
    assert_eq!(ctx.fields.len(), 3);
    assert_eq!(text(ctx.get_field("c_0")), Some("a".to_string()));
    assert_eq!(text(ctx.get_field("c_1")), Some("b".to_string()));
    assert_eq!(text(ctx.get_field("c_2")), Some(String::new()));
}

#[test]
fn extractor_replacing_field_pattern() {
    let ex = ContextExtractor::new()
        .add_field_pattern("k".to_string(), "=".to_string())
        .add_field_pattern("k".to_string(), ":".to_string());
    let ctx = ex.extract_from_message("a=b:c");
    assert_eq!(ctx.fields.len(), 1);
    assert_eq!(text(ctx.get_field("k_0")), Some("c".to_string()));
}

#[test]
fn builder_builds_fields_and_scopes() {
    let ctx = ContextBuilder::new()
        .add_field("a".to_string(), LogFieldValue::Integer(1))
        .add_field("a".to_string(), LogFieldValue::Integer(2))
        .add_fields(vec![
            ("b".to_string(), LogFieldValue::Boolean(true)),
            ("c".to_string(), LogFieldValue::String("x".to_string())),
            ("b".to_string(), LogFieldValue::Boolean(false)),
        ])
        .add_scope(LogScope::new("outer".to_string(), LogLevel::Debug))
        .add_scope_with_level("inner".to_string(), LogLevel::Warn)
        .build();
    assert_eq!(ctx.fields.len(), 3);
    assert!(matches!(ctx.get_field("a"), Some(LogFieldValue::Integer(2))));
    assert!(matches!(ctx.get_field("b"), Some(LogFieldValue::Boolean(false))));
    assert_eq!(text(ctx.get_field("c")), Some("x".to_string()));
    assert_eq!(ctx.scopes.len(), 2);
    assert_eq!(ctx.scopes[0].name, "outer");
    assert_eq!(ctx.scopes[1].name, "inner");
    assert_eq!(ctx.scopes[1].level, LogLevel::Warn);
}

#[test]
fn hierarchical_first_context_becomes_current() {
    let mut p = HierarchicalContextProvider::new(2);
    assert!(p.current_context().is_none());
    assert!(p.create_context("main".to_string()).is_ok());
    assert!(p.current_context().is_some());
    assert!(p.create_context("other".to_string()).is_ok());
    p.push_scope(LogScope::new("s1".to_string(), LogLevel::Info));
    assert_eq!(p.current_context().unwrap().scopes.len(), 1);
    assert_eq!(p.current_context().unwrap().scopes[0].name, "s1");
}

#[test]
fn hierarchical_depth_limit() {
    let mut p = HierarchicalContextProvider::new(2);
    p.create_context("main".to_string()).unwrap();
    p.push_scope(LogScope::new("a".to_string(), LogLevel::Info));
    p.push_scope(LogScope::new("b".to_string(), LogLevel::Info));
    p.push_scope(LogScope::new("c".to_string(), LogLevel::Info));
    assert_eq!(p.current_context().unwrap().scopes.len(), 2);
    assert_eq!(p.pop_scope().unwrap().name, "b");
    assert_eq!(p.pop_scope().unwrap().name, "a");
    assert!(p.pop_scope().is_none());
}

#[test]
fn hierarchical_switching_contexts() {
    let mut p = HierarchicalContextProvider::default();
    p.create_context("one".to_string()).unwrap();
    p.create_context("two".to_string()).unwrap();
    p.push_scope(LogScope::new("in-one".to_string(), LogLevel::Info));
    p.set_current_context("two".to_string()).unwrap();
    assert_eq!(p.current_context().unwrap().scopes.len(), 0);
    p.set_current_context("one".to_string()).unwrap();
    assert_eq!(p.current_context().unwrap().scopes.len(), 1);
}

#[test]
fn hierarchical_unknown_context_is_an_error() {
    let mut p = HierarchicalContextProvider::new(5);
    match p.set_current_context("ghost".to_string()) {
        Err(AppError::Validation { message, field }) => {
            assert_eq!(message, "Context 'ghost' does not exist");
            assert!(field.is_none());
        }
        _ => panic!("expected a validation error"),
    }
}

#[test]
fn hierarchical_without_current_context_ignores_scopes() {
    let mut p = HierarchicalContextProvider::new(5);
    p.push_scope(LogScope::new("lost".to_string(), LogLevel::Info));
    assert!(p.pop_scope().is_none());
    assert!(p.current_context().is_none());
    let mut c = LogContext::new();
    c.add_field("k".to_string(), LogFieldValue::Integer(7));
    p.set_context(c);
    assert!(matches!(p.current_context().unwrap().get_field("k"), Some(LogFieldValue::Integer(7))));
    assert_eq!(p.metadata().name, "hierarchical");
    assert_eq!(p.metadata().max_depth, 5);
}

#[test]
fn context_add_and_merge_fields() {
    let mut c = LogContext::new();
    c.add_field("a".to_string(), LogFieldValue::Integer(1));
    c.add_fields(vec![
        ("a".to_string(), LogFieldValue::Integer(2)),
        ("b".to_string(), LogFieldValue::Integer(3)),
    ]);
    assert!(matches!(c.get_field("a"), Some(LogFieldValue::Integer(2))));
    let merged = c.merge_fields(&vec![
        ("b".to_string(), LogFieldValue::String("r".to_string())),
        ("z".to_string(), LogFieldValue::Null),
    ]);
    assert_eq!(merged.len(), 3);
    let get = |k: &str| merged.iter().find(|(n, _)| n == k).map(|(_, v)| v);
    assert!(matches!(get("a"), Some(LogFieldValue::Integer(2))));
    assert!(matches!(get("b"), Some(LogFieldValue::String(s)) if s == "r"));
    assert!(matches!(get("z"), Some(LogFieldValue::Null)));
    let with_scopes = LogContext::with_scopes(vec![LogScope::new("s".to_string(), LogLevel::Info)]);
    assert_eq!(with_scopes.len(), 1);
}
