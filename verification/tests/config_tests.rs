use super_lotto::config::error::{ConfigError, ErrorSeverity};
use super_lotto::config::error_metrics::{ConfigErrorContext, ConfigErrorMetrics};
use super_lotto::config::provider::EnvironmentConfigProvider;
use super_lotto::config::types::{format_env_key, parse_env_key};
use super_lotto::error::types::AppError;
use super_lotto::config::manager::{delete_needed, delete_reply, next_write_action, set_reply, ProviderReply, WriteAction};

#[test]
fn test_env_key_parsing() {
    assert_eq!(
        parse_env_key("APP_SERVER_PORT", Some("APP_"), "_"),
        Some("server.port".to_string())
    );
    assert_eq!(
        parse_env_key("SERVER_PORT", None, "_"),
        Some("server.port".to_string())
    );
}

#[test]
fn test_env_key_formatting() {
    assert_eq!(
        format_env_key("server.port", Some("APP_"), "_"),
        "APP_SERVER_PORT".to_string()
    );
    assert_eq!(
        format_env_key("server.port", None, "_"),
        "SERVER_PORT".to_string()
    );
}

#[test]
fn env_key_prefix_without_separator_is_joined() {
    assert_eq!(format_env_key("server.port", Some("APP"), "_"), "APP_SERVER_PORT");
    assert_eq!(parse_env_key("APP_SERVER_PORT", Some("APP"), "_"), Some("server.port".to_string()));
}

#[test]
fn env_key_without_prefix_is_refused() {
    assert_eq!(parse_env_key("OTHER_PORT", Some("APP_"), "_"), None);
}

#[test]
fn env_key_roundtrip_on_ascii_keys() {
    let key = "database.pool.size";
    let env = format_env_key(key, Some("APP_"), "_");
    assert_eq!(env, "APP_DATABASE_POOL_SIZE");
    assert_eq!(parse_env_key(&env, Some("APP_"), "_"), Some(key.to_string()));
}

#[test]
fn environment_provider_defaults_to_dot_separator() {
    let p = EnvironmentConfigProvider::new(Some("APP".to_string()), None);
    assert_eq!(p.separator.as_deref(), Some("."));
    assert_eq!(p.format_key("server.port"), "APP.SERVER.PORT");
    assert_eq!(p.normalize_key("APP.SERVER.PORT"), Some("server.port".to_string()));
    assert!(p.provider_metadata.read_only);
}

#[test]
fn config_error_classification() {
    let e = ConfigError::not_found("server.port");
    assert!(e.is_client_error());
    assert!(!e.is_server_error());
    assert!(!e.is_retryable());
    assert_eq!(e.category(), "not_found");
    assert_eq!(e.http_status_code(), 404);
    assert_eq!(e.severity(), ErrorSeverity::Warning);
    assert_eq!(e.to_string(), "Configuration key 'server.port' not found");

    let t = ConfigError::timeout("load", 250);
    assert!(t.is_retryable());
    assert!(t.is_server_error());
    assert_eq!(t.http_status_code(), 504);
    assert_eq!(t.to_string(), "Operation 'load' timed out after 250ms");

    let n = ConfigError::network_error_with_status("http://x", 418, "teapot");
    assert_eq!(n.http_status_code(), 418);
    assert_eq!(ConfigError::network_error("http://x", "down").http_status_code(), 502);
    assert_eq!(n.to_string(), "Network error for 'http://x' (418): teapot");

    let p = ConfigError::parse_error_with_location("app.json", 3, 14, "unexpected token");
    assert_eq!(p.to_string(), "Parse error in 'app.json' at line 3, column 14: unexpected token");
    assert_eq!(p.http_status_code(), 500);

    let c = ConfigError::conflict("k", vec!["a".to_string(), "b".to_string()], vec![]);
    assert_eq!(c.to_string(), "Configuration conflict for key 'k' between sources: [\"a\", \"b\"]");
    assert_eq!(ConfigError::quota_exceeded("keys", 11, 10).to_string(), "Quota exceeded for 'keys': 11/10");
    assert_eq!(ConfigError::quota_exceeded("keys", 11, 10).http_status_code(), 429);
    assert_eq!(ConfigError::source_unavailable("env", "gone").severity(), ErrorSeverity::Critical);
}

#[test]
fn config_error_into_app_error() {
    match ConfigError::invalid_value("port", "abc", "not a number").into_app_error() {
        AppError::Config { message, field } => {
            assert_eq!(field, "port");
            assert_eq!(message, "Invalid value 'abc' for key 'port': not a number");
        }
        _ => panic!("expected a configuration error"),
    }
    match ConfigError::generic("boom").into_app_error() {
        AppError::Config { field, .. } => assert_eq!(field, "config"),
        _ => panic!("expected a configuration error"),
    }
}

use super_lotto::config::layout::{flatten_config_map, nest_config_map};
use super_lotto::config::traits::ConfigFormat;
use super_lotto::config::types::{ConfigSource, ConfigSourceBuilder, ConfigurationBuilder};
use super_lotto::config::value::{values_equal, ConfigValue};

fn lookup<'a>(m: &'a [(String, ConfigValue)], k: &str) -> Option<&'a ConfigValue> {
    m.iter().find(|(key, _)| key == k).map(|(_, v)| v)
}

#[test]
fn test_config_source_builder() {
    let source = ConfigSourceBuilder::new()
        .file("config.json", ConfigFormat::Json)
        .build()
        .unwrap();

    match source {
        ConfigSource::File { path, format, .. } => {
            assert_eq!(path, "config.json");
            assert_eq!(format, ConfigFormat::Json);
        }
        _ => panic!("Expected File source"),
    }
}

#[test]
fn test_configuration_builder() {
    let spec = ConfigurationBuilder::new("test")
        .add_file("config.json", ConfigFormat::Json)
        .add_environment(Some("TEST_".to_string()))
        .build()
        .unwrap();

    assert_eq!(spec.name, "test");
    assert_eq!(spec.sources.len(), 2);
}

#[test]
fn test_config_flattening() {
    let nested = vec![
        ("port".to_string(), ConfigValue::Integer(8080)),
        ("host".to_string(), ConfigValue::String("localhost".to_string())),
    ];
    let config = vec![("server".to_string(), ConfigValue::Object(nested))];

    let flattened = flatten_config_map(&config, ".");
    assert!(values_equal(lookup(&flattened, "server.port").unwrap(), &ConfigValue::Integer(8080)));
    assert!(values_equal(lookup(&flattened, "server.host").unwrap(), &ConfigValue::String("localhost".to_string())));
}

#[test]
fn test_config_nesting() {
    let flat = vec![
        ("server.port".to_string(), ConfigValue::Integer(8080)),
        ("server.host".to_string(), ConfigValue::String("localhost".to_string())),
    ];

    let nested = nest_config_map(flat, ".");

    if let Some(ConfigValue::Object(server_config)) = lookup(&nested, "server") {
        assert!(values_equal(lookup(server_config, "port").unwrap(), &ConfigValue::Integer(8080)));
        assert!(values_equal(lookup(server_config, "host").unwrap(), &ConfigValue::String("localhost".to_string())));
    } else {
        panic!("Expected nested object");
    }
}

#[test]
fn nesting_stops_at_plain_values_and_keeps_plain_keys() {
    let flat = vec![
        ("a".to_string(), ConfigValue::Integer(1)),
        ("a.b".to_string(), ConfigValue::Integer(2)),
        ("x::y::z".to_string(), ConfigValue::Boolean(true)),
    ];
    let nested = nest_config_map(flat, "::");
    assert!(values_equal(lookup(&nested, "a").unwrap(), &ConfigValue::Integer(1)));
    assert!(lookup(&nested, "a.b").is_some());
    match lookup(&nested, "x") {
        Some(ConfigValue::Object(x)) => match lookup(x, "y") {
            Some(ConfigValue::Object(y)) => assert!(values_equal(lookup(y, "z").unwrap(), &ConfigValue::Boolean(true))),
            _ => panic!("expected y"),
        },
        _ => panic!("expected x"),
    }
}

use super_lotto::config::provider::MemoryConfigProvider;

#[test]
fn memory_provider_set_get_delete() {
    let mut p = MemoryConfigProvider::new("mem");
    p.set_initial_values(vec![("a.b".to_string(), ConfigValue::Integer(1))]);
    assert_eq!(p.get_metadata("a.b").unwrap().unwrap().version, 1);
    assert_eq!(p.get_metadata("a.b").unwrap().unwrap().value_type, "integer");
    p.set("a.b", ConfigValue::Boolean(true)).unwrap();
    let m = p.get_metadata("a.b").unwrap().unwrap();
    assert_eq!(m.version, 2);
    assert_eq!(m.value_type, "boolean");
    assert!(values_equal(&p.get("a.b").unwrap().unwrap(), &ConfigValue::Boolean(true)));
    p.set("c", ConfigValue::Null).unwrap();
    assert_eq!(p.get_metadata("c").unwrap().unwrap().source, "memory");
    assert_eq!(p.list_keys(None).unwrap(), vec!["a.b".to_string(), "c".to_string()]);
    assert_eq!(p.list_keys(Some("a*")).unwrap(), vec!["a.b".to_string()]);
    assert_eq!(p.list_keys(Some("(")).unwrap(), Vec::<String>::new());
    assert!(p.delete("c").unwrap());
    assert!(!p.delete("c").unwrap());
    assert!(!p.key_exists("c").unwrap());
    let h = p.health_check().unwrap();
    assert_eq!(h.details[0].1, "1");
}

#[test]
fn environment_values_are_typed() {
    let p = EnvironmentConfigProvider::new(Some("APP_".to_string()), None);
    assert!(values_equal(&p.parse_env_value("TRUE", None, None).unwrap(), &ConfigValue::Boolean(true)));
    assert!(values_equal(&p.parse_env_value("-42", None, None).unwrap(), &ConfigValue::Integer(-42)));
    let f = p.parse_env_value("1.5", Some((1.5f64.to_bits(), "1.5".to_string())), None).unwrap();
    assert!(matches!(f, ConfigValue::Float { bits, .. } if bits == 1.5f64.to_bits()));
    let j = p.parse_env_value("[1]", None, Some(ConfigValue::List(vec![ConfigValue::Integer(1)]))).unwrap();
    assert!(matches!(j, ConfigValue::List(_)));
    let s = p.parse_env_value("{oops", None, None).unwrap();
    assert!(values_equal(&s, &ConfigValue::String("{oops".to_string())));
    assert!(p.set("k", ConfigValue::Null).is_err());
    assert_eq!(p.health_check().unwrap().details.len(), 2);
}

#[test]
fn config_error_status_families() {
    let q = ConfigError::quota_exceeded("keys", 11, 10);
    assert_eq!(q.http_status_code(), 429);
    assert!(q.is_client_error());
    assert!(!q.is_server_error());

    let u = ConfigError::unsupported_operation("watch", "env", "not supported");
    assert_eq!(u.http_status_code(), 501);
    assert!(!u.is_client_error());
    assert!(u.is_server_error());

    let n = ConfigError::network_error_with_status("http://x", 418, "teapot");
    assert!(n.is_client_error());
    assert!(!n.is_server_error());
    assert!(!ConfigError::network_error("http://x", "down").is_client_error());
    assert!(ConfigError::network_error("http://x", "down").is_server_error());
}

#[test]
fn config_error_categories_are_distinct() {
    let q = ConfigError::quota_exceeded("keys", 11, 10);
    let u = ConfigError::unsupported_operation("watch", "env", "not supported");
    assert_eq!(q.category(), "quota_exceeded");
    assert_eq!(u.category(), "unsupported_operation");
    assert_ne!(q.category(), u.category());
}

#[test]
fn write_loop_steps() {
    // two writable providers: the first fails, the second takes the write
    assert_eq!(next_write_action(2, 0, None), WriteAction::Ask(0));
    let first = set_reply(&Err(AppError::Internal { message: "down".to_string() }));
    assert_eq!(first, ProviderReply::Declined);
    assert_eq!(next_write_action(2, 1, Some(first)), WriteAction::Ask(1));
    let second = set_reply(&Ok(()));
    assert_eq!(second, ProviderReply::Took);
    assert_eq!(next_write_action(2, 2, Some(second)), WriteAction::Apply(1));
    // a removal that removed nothing declines; all declined means failure
    assert_eq!(delete_reply(&Ok(false)), ProviderReply::Declined);
    assert_eq!(delete_reply(&Ok(true)), ProviderReply::Took);
    assert_eq!(next_write_action(2, 2, Some(ProviderReply::Declined)), WriteAction::NoProvider);
    assert_eq!(next_write_action(0, 0, None), WriteAction::NoProvider);
    assert!(!delete_needed(&None));
}

fn float(f: f64) -> ConfigValue {
    ConfigValue::Float { bits: f.to_bits(), text: format!("{}", f) }
}

#[test]
fn config_value_as_i64() {
    assert_eq!(ConfigValue::Integer(-42).as_i64(), Some(-42));
    assert_eq!(ConfigValue::String("7".to_string()).as_i64(), None);
    assert_eq!(ConfigValue::Null.as_i64(), None);
    for f in [0.0, -0.0, 2.9, -2.9, 0.5, -0.99, 1e18, -1e18, 1e300, -1e300, 9.2e18, -9.3e18,
        f64::INFINITY, f64::NEG_INFINITY, f64::NAN, 4503599627370497.0, 5e-324] {
        assert_eq!(float(f).as_i64(), Some(f as i64), "{}", f);
    }
}

#[test]
fn config_error_metrics_counts() {
    let mut m = ConfigErrorMetrics::new();
    m.record_error(&ConfigError::not_found("a"), "loader", Some("file"), 10);
    m.record_error(&ConfigError::timeout("load", 5), "loader", None, 30);
    m.record_error(&ConfigError::quota_exceeded("keys", 2, 1), "manager", Some("file"), 0);
    assert_eq!(m.total_errors, 3);
    assert_eq!(m.retryable_errors, 1);
    assert_eq!(m.client_errors, 2);
    assert_eq!(m.server_errors, 1);
    assert_eq!(m.total_resolution_time_ms, 40);
    assert_eq!(m.category_count("not_found"), 1);
    assert_eq!(m.category_count("timeout"), 1);
    assert_eq!(m.category_count("conflict"), 0);
    let comp: Vec<(String, u64)> = m.errors_by_component.clone();
    assert!(comp.contains(&("loader".to_string(), 2)) && comp.contains(&("manager".to_string(), 1)));
    assert_eq!(m.errors_by_source, vec![("file".to_string(), 2)]);
    assert!(m.errors_by_severity.contains(&("Warning".to_string(), 2)));
}

#[test]
fn config_error_context_builder() {
    let c = ConfigErrorContext::new("loader".to_string(), "load".to_string())
        .with_key("server.port".to_string())
        .with_source("file".to_string())
        .with_request_id("r1".to_string())
        .with_user_id("u1".to_string())
        .with_metadata(vec![("path".to_string(), "app.json".to_string())]);
    assert_eq!(c.component, "loader");
    assert_eq!(c.operation, "load");
    assert_eq!(c.key.as_deref(), Some("server.port"));
    assert_eq!(c.source.as_deref(), Some("file"));
    assert_eq!(c.request_id.as_deref(), Some("r1"));
    assert_eq!(c.user_id.as_deref(), Some("u1"));
    assert_eq!(c.metadata.len(), 1);
    assert!(c.timestamp > 0);
}
