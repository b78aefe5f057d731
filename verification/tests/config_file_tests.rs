use super_lotto::config::file_provider::FileConfigProvider;
use super_lotto::config::layout::{json_to_flat_map, nest_dotted};
use super_lotto::config::loader::FileConfigLoader;
use super_lotto::config::traits::{ConfigFormat, HealthStatus};
use super_lotto::config::types::ConfigSource;
use super_lotto::config::value::ConfigValue;
use super_lotto::error::types::AppError;

fn obj(entries: Vec<(&str, ConfigValue)>) -> ConfigValue {
    ConfigValue::Object(entries.into_iter().map(|(k, v)| (k.to_string(), v)).collect())
}

fn get<'a>(v: &'a [(String, ConfigValue)], k: &str) -> Option<&'a ConfigValue> {
    v.iter().find(|(n, _)| n == k).map(|(_, x)| x)
}

fn doc() -> ConfigValue {
    obj(vec![
        ("server", obj(vec![("port", ConfigValue::Integer(8080)), ("host", ConfigValue::String("localhost".into()))])),
        ("tags", ConfigValue::List(vec![ConfigValue::String("a".into()), obj(vec![("x", ConfigValue::Boolean(true))])])),
        ("debug", ConfigValue::Boolean(false)),
    ])
}

fn config_error(e: &AppError) -> (String, String) {
    match e {
        AppError::Config { message, field } => (message.clone(), field.clone()),
        other => panic!("unexpected error {:?}", other),
    }
}

#[test]
fn flat_map_of_document() {
    let flat = json_to_flat_map(&doc(), "");
    assert_eq!(flat.len(), 5);
    assert!(matches!(get(&flat, "server.port"), Some(ConfigValue::Integer(8080))));
    assert!(matches!(get(&flat, "server.host"), Some(ConfigValue::String(s)) if s == "localhost"));
    assert!(matches!(get(&flat, "tags.0"), Some(ConfigValue::String(s)) if s == "a"));
    assert!(matches!(get(&flat, "tags.1.x"), Some(ConfigValue::Boolean(true))));
    assert!(matches!(get(&flat, "debug"), Some(ConfigValue::Boolean(false))));
}

#[test]
fn flat_map_of_plain_value() {
    assert!(json_to_flat_map(&ConfigValue::Integer(1), "").is_empty());
    let under = json_to_flat_map(&ConfigValue::Integer(1), "p");
    assert_eq!(under.len(), 1);
    assert!(matches!(get(&under, "p"), Some(ConfigValue::Integer(1))));
}

#[test]
fn nest_dotted_builds_objects_and_replaces_values() {
    let flat = vec![
        ("a".to_string(), ConfigValue::Integer(1)),
        ("a.b".to_string(), ConfigValue::Integer(2)),
        ("c.d.e".to_string(), ConfigValue::Boolean(true)),
        ("c.f".to_string(), ConfigValue::Null),
    ];
    let nested = nest_dotted(flat);
    assert_eq!(nested.len(), 2);
    match get(&nested, "a") {
        Some(ConfigValue::Object(inner)) => assert!(matches!(get(inner, "b"), Some(ConfigValue::Integer(2)))),
        other => panic!("unexpected {:?}", other),
    }
    match get(&nested, "c") {
        Some(ConfigValue::Object(inner)) => {
            assert!(matches!(get(inner, "f"), Some(ConfigValue::Null)));
            match get(inner, "d") {
                Some(ConfigValue::Object(d)) => assert!(matches!(get(d, "e"), Some(ConfigValue::Boolean(true)))),
                other => panic!("unexpected {:?}", other),
            }
        }
        other => panic!("unexpected {:?}", other),
    }
}

#[test]
fn file_provider_load_and_query() {
    let mut p = FileConfigProvider::new("app.json".to_string(), ConfigFormat::Json);
    assert_eq!(p.provider_metadata().description, "File configuration provider for app.json");
    assert!(p.load_parsed(Ok(doc()), Some(42)).is_ok());
    assert!(matches!(p.get("server.port"), Ok(Some(ConfigValue::Integer(8080)))));
    assert!(matches!(p.get("nope"), Ok(None)));
    assert_eq!(p.key_exists("debug").unwrap(), true);
    let meta = p.get_metadata("server.host").unwrap().unwrap();
    assert_eq!(meta.source, "app.json");
    assert_eq!(meta.value_type, "string");
    assert_eq!(meta.version, 1);
    let mut keys = p.list_keys(Some("server")).unwrap();
    keys.sort();
    assert_eq!(keys, vec!["server.host".to_string(), "server.port".to_string()]);
    assert_eq!(p.list_keys(None).unwrap().len(), 5);
}

#[test]
fn file_provider_set_and_delete_give_document() {
    let mut p = FileConfigProvider::new("app.json".to_string(), ConfigFormat::Json);
    p.load_parsed(Ok(obj(vec![("a", obj(vec![("b", ConfigValue::Integer(1))]))])), None).unwrap();
    let d = p.set("a.c", ConfigValue::Integer(2)).unwrap();
    assert_eq!(d.len(), 1);
    match get(&d, "a") {
        Some(ConfigValue::Object(inner)) => {
            assert!(matches!(get(inner, "b"), Some(ConfigValue::Integer(1))));
            assert!(matches!(get(inner, "c"), Some(ConfigValue::Integer(2))));
        }
        other => panic!("unexpected {:?}", other),
    }
    assert_eq!(p.get_metadata("a.c").unwrap().unwrap().version, 2);
    let (removed, doc) = p.delete("a.b").unwrap();
    assert!(removed);
    assert!(doc.is_some());
    let (removed, doc) = p.delete("a.b").unwrap();
    assert!(!removed);
    assert!(doc.is_none());
}

#[test]
fn file_provider_format_errors() {
    let mut ini = FileConfigProvider::new("app.ini".to_string(), ConfigFormat::Ini);
    let e = ini.load_parsed(Ok(doc()), None).unwrap_err();
    assert_eq!(config_error(&e), ("Unsupported format: Ini".to_string(), "format".to_string()));
    let mut toml = FileConfigProvider::new("app.toml".to_string(), ConfigFormat::Toml);
    toml.load_parsed(Ok(doc()), None).unwrap();
    let e = toml.set("x", ConfigValue::Integer(1)).unwrap_err();
    assert_eq!(config_error(&e), ("Saving not supported for format: Toml".to_string(), "format".to_string()));
    assert!(matches!(toml.get("x"), Ok(Some(ConfigValue::Integer(1)))));
    let parse_error = AppError::Config { message: "Failed to parse JSON: eof".to_string(), field: "content".to_string() };
    let mut json = FileConfigProvider::new("a.json".to_string(), ConfigFormat::Json);
    let e = json.load_parsed(Err(parse_error), None).unwrap_err();
    assert_eq!(config_error(&e).0, "Failed to parse JSON: eof");
}

#[test]
fn file_provider_health() {
    let p = FileConfigProvider::new("app.yaml".to_string(), ConfigFormat::Yaml);
    let h = p.health_check(false).unwrap();
    assert_eq!(h.status, HealthStatus::Degraded);
    assert_eq!(h.message, "Config file not found");
    assert_eq!(h.details[1], ("format".to_string(), "Yaml".to_string()));
    assert_eq!(h.details[2], ("exists".to_string(), "false".to_string()));
    let h = p.health_check(true).unwrap();
    assert_eq!(h.status, HealthStatus::Healthy);
    assert_eq!(h.response_time_ms, Some(10));
}

fn file(format: ConfigFormat) -> ConfigSource {
    ConfigSource::File { path: "c.json".to_string(), format, encoding: Some("utf-8".to_string()) }
}

#[test]
fn loader_validates_sources() {
    let l = FileConfigLoader::new();
    assert!(l.validate_source(&file(ConfigFormat::Json)).is_ok());
    assert!(l.validate_source(&file(ConfigFormat::Ini)).is_ok());
    let e = l.validate_source(&file(ConfigFormat::Xml)).unwrap_err();
    assert_eq!(config_error(&e), ("Unsupported format: Xml".to_string(), "format".to_string()));
    let env = ConfigSource::Environment { prefix: None, separator: None };
    let e = l.validate_source(&env).unwrap_err();
    assert_eq!(config_error(&e), ("File loader only supports file sources".to_string(), "source_type".to_string()));
    assert_eq!(l.loader_metadata().supported_formats.len(), 4);
}

#[test]
fn loader_makes_config_data() {
    let l = FileConfigLoader::default();
    let data = l.load_parsed(&file(ConfigFormat::Yaml), 120, Ok(doc()), 7).unwrap();
    assert_eq!(data.values.len(), 5);
    assert_eq!(data.source_info.source_type, "file");
    assert_eq!(data.source_info.source_location, "c.json");
    assert_eq!(data.source_info.size_bytes, Some(120));
    assert_eq!(data.source_info.encoding.as_deref(), Some("utf-8"));
    assert_eq!(data.loaded_at, 7);
    let e = l.load_parsed(&file(ConfigFormat::Ini), 1, Ok(doc()), 7).unwrap_err();
    assert_eq!(config_error(&e).0, "Unsupported format: Ini");
    assert!(matches!(l.save_format(&file(ConfigFormat::Yaml)), Ok(ConfigFormat::Yaml)));
    let e = l.save_format(&file(ConfigFormat::Toml)).unwrap_err();
    assert_eq!(config_error(&e).0, "Saving not supported for format: Toml");
    let e = l.watch(&file(ConfigFormat::Json)).unwrap_err();
    assert_eq!(config_error(&e), ("File watching not implemented yet".to_string(), "watching".to_string()));
}
