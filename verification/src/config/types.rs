//! Mapping between dotted configuration keys and environment variable names.

use vstd::prelude::*;
use crate::text::{
    has_prefix, has_suffix, lowercase_spec, replace_all, replace_spec, skip_chars, starts_with,
    ends_with, to_lower, to_upper, char_len, uppercase_spec, owned, push_str,
};

use crate::config::traits::{AuthConfig, ConfigFormat, VaultAuth, VaultType};
use crate::config::value::ConfigValue;
use crate::error::types::AppError;

verus! {

/// The environment variable name of a dotted key: dots become the
/// separator, letters are upper-cased, and the prefix is put in front,
/// joined by the separator unless the prefix already ends with it.
pub open spec fn format_env_key_spec(key: Seq<char>, prefix: Option<Seq<char>>, separator: Seq<char>) -> Seq<char> {
    let formatted = uppercase_spec(replace_spec(key, "."@, separator));
    match prefix {
        None => formatted,
        Some(p) => if has_suffix(p, separator) {
            p + formatted
        } else {
            p + separator + formatted
        },
    }
}

/// The dotted key of an environment variable name: letters are
/// lower-cased, the (lower-cased) prefix must lead the name and is removed
/// together with a separator that follows it, and separators become dots.
/// A name that does not start with the prefix has no key.
pub open spec fn parse_env_key_spec(env_key: Seq<char>, prefix: Option<Seq<char>>, separator: Seq<char>) -> Option<Seq<char>> {
    let lower = lowercase_spec(env_key);
    match prefix {
        None => Some(replace_spec(lower, separator, "."@)),
        Some(p) => {
            let lp = lowercase_spec(p);
            if !has_prefix(lower, lp) {
                None
            } else {
                let rest = lower.subrange(lp.len() as int, lower.len() as int);
                let key = if !has_suffix(lp, separator) && has_prefix(rest, separator) {
                    rest.subrange(separator.len() as int, rest.len() as int)
                } else {
                    rest
                };
                Some(replace_spec(key, separator, "."@))
            }
        },
    }
}

/// Parse a key from environment variable format
pub fn parse_env_key(env_key: &str, prefix: Option<&str>, separator: &str) -> (r: Option<String>)
    ensures
        match r {
            Some(k) => parse_env_key_spec(env_key@, match prefix { Some(p) => Some(p@), None => None }, separator@) == Some(k@),
            None => parse_env_key_spec(env_key@, match prefix { Some(p) => Some(p@), None => None }, separator@) is None,
        },
{
    let lower = to_lower(env_key);
    match prefix {
        None => Some(replace_all(lower.as_str(), separator, ".")),
        Some(p) => {
            let lp = to_lower(p);
            if !starts_with(lower.as_str(), lp.as_str()) {
                return None;
            }
            let rest = skip_chars(lower.as_str(), char_len(lp.as_str()));
            let key = if !ends_with(lp.as_str(), separator) && starts_with(rest.as_str(), separator) {
                skip_chars(rest.as_str(), char_len(separator))
            } else {
                rest
            };
            Some(replace_all(key.as_str(), separator, "."))
        },
    }
}

/// Format a key for environment variable
pub fn format_env_key(key: &str, prefix: Option<&str>, separator: &str) -> (r: String)
    ensures
        r@ == format_env_key_spec(key@, match prefix { Some(p) => Some(p@), None => None }, separator@),
{
    let replaced = replace_all(key, ".", separator);
    let formatted = to_upper(replaced.as_str());
    match prefix {
        None => formatted,
        Some(p) => {
            let mut out = owned(p);
            if !ends_with(p, separator) {
                push_str(&mut out, separator);
            }
            push_str(&mut out, formatted.as_str());
            out
        },
    }
}

/// Where configuration values come from.
#[derive(Debug)]
pub enum ConfigSource {
    File { path: String, format: ConfigFormat, encoding: Option<String> },
    Environment { prefix: Option<String>, separator: Option<String> },
    CommandLine { args: Vec<String> },
    Remote { url: String, auth: Option<AuthConfig>, headers: Option<Vec<(String, String)>> },
    Database { connection_string: String, table: String, key_column: String, value_column: String },
    Vault { vault_type: VaultType, address: String, auth: VaultAuth, path: String },
    Memory { data: Vec<(String, ConfigValue)> },
}

/// Builds one configuration source; the last choice made wins.
pub struct ConfigSourceBuilder {
    pub source: Option<ConfigSource>,
}

impl ConfigSourceBuilder {
    /// A builder with no source chosen.
    pub fn new() -> (r: ConfigSourceBuilder)
        ensures
            r.source is None,
    {
        ConfigSourceBuilder { source: None }
    }

    /// A file in the given format.
    pub fn file(self, path: &str, format: ConfigFormat) -> (r: ConfigSourceBuilder)
        ensures
            r.source matches Some(ConfigSource::File { path: p, format: f, encoding: e })
                && p@ == path@ && f == format && e is None,
    {
        ConfigSourceBuilder { source: Some(ConfigSource::File { path: owned(path), format, encoding: None }) }
    }

    /// A file in the given format and encoding.
    pub fn file_with_encoding(self, path: &str, format: ConfigFormat, encoding: &str) -> (r: ConfigSourceBuilder)
        ensures
            r.source matches Some(ConfigSource::File { path: p, format: f, encoding: Some(e) })
                && p@ == path@ && f == format && e@ == encoding@,
    {
        ConfigSourceBuilder { source: Some(ConfigSource::File { path: owned(path), format, encoding: Some(owned(encoding)) }) }
    }

    /// The environment, without prefix or separator.
    pub fn environment(self) -> (r: ConfigSourceBuilder)
        ensures
            r.source matches Some(ConfigSource::Environment { prefix: None, separator: None }),
    {
        ConfigSourceBuilder { source: Some(ConfigSource::Environment { prefix: None, separator: None }) }
    }

    /// The environment variables with a prefix, split at a separator.
    pub fn environment_with_prefix(self, prefix: &str, separator: &str) -> (r: ConfigSourceBuilder)
        ensures
            r.source matches Some(ConfigSource::Environment { prefix: Some(p), separator: Some(s) })
                && p@ == prefix@ && s@ == separator@,
    {
        ConfigSourceBuilder {
            source: Some(ConfigSource::Environment { prefix: Some(owned(prefix)), separator: Some(owned(separator)) }),
        }
    }

    /// Command-line arguments.
    pub fn command_line(self, args: Vec<String>) -> (r: ConfigSourceBuilder)
        ensures
            r.source == Some(ConfigSource::CommandLine { args }),
    {
        ConfigSourceBuilder { source: Some(ConfigSource::CommandLine { args }) }
    }

    /// A remote service.
    pub fn remote(self, url: &str, auth: Option<AuthConfig>, headers: Option<Vec<(String, String)>>) -> (r: ConfigSourceBuilder)
        ensures
            r.source matches Some(ConfigSource::Remote { url: u, auth: a, headers: h }) && u@ == url@ && a == auth && h == headers,
    {
        ConfigSourceBuilder { source: Some(ConfigSource::Remote { url: owned(url), auth, headers }) }
    }

    /// A database table of keys and values.
    pub fn database(self, connection_string: &str, table: &str, key_column: &str, value_column: &str) -> (r: ConfigSourceBuilder)
        ensures
            r.source matches Some(ConfigSource::Database { connection_string: c, table: t, key_column: k, value_column: v })
                && c@ == connection_string@ && t@ == table@ && k@ == key_column@ && v@ == value_column@,
    {
        ConfigSourceBuilder {
            source: Some(ConfigSource::Database {
                connection_string: owned(connection_string),
                table: owned(table),
                key_column: owned(key_column),
                value_column: owned(value_column),
            }),
        }
    }

    /// Values held in memory.
    pub fn memory(self, data: Vec<(String, ConfigValue)>) -> (r: ConfigSourceBuilder)
        ensures
            r.source == Some(ConfigSource::Memory { data }),
    {
        ConfigSourceBuilder { source: Some(ConfigSource::Memory { data }) }
    }

    /// The chosen source; without one, `No configuration source specified`
    /// on the field `source`.
    pub fn build(self) -> (r: Result<ConfigSource, AppError>)
        ensures
            match self.source {
                Some(s) => r == Ok::<ConfigSource, AppError>(s),
                None => r matches Err(AppError::Config { message, field })
                    && message@ == "No configuration source specified"@ && field@ == "source"@,
            },
    {
        match self.source {
            Some(s) => Ok(s),
            None => Err(AppError::Config { message: owned("No configuration source specified"), field: owned("source") }),
        }
    }
}

impl Default for ConfigSourceBuilder {
    /// A builder with no source chosen.
    fn default() -> (r: ConfigSourceBuilder)
        ensures
            r.source is None,
    {
        ConfigSourceBuilder::new()
    }
}

/// A named set of configuration sources and the validator to check them.
#[derive(Debug)]
pub struct ConfigurationSpec {
    pub name: String,
    pub sources: Vec<ConfigSource>,
    pub validator: Option<String>,
}

/// Builds a configuration specification, sources in the order added.
pub struct ConfigurationBuilder {
    pub name: String,
    pub sources: Vec<ConfigSource>,
    pub validator: Option<String>,
}

impl ConfigurationBuilder {
    /// A specification with a name and nothing else.
    pub fn new(name: &str) -> (r: ConfigurationBuilder)
        ensures
            r.name@ == name@,
            r.sources@.len() == 0,
            r.validator is None,
    {
        ConfigurationBuilder { name: owned(name), sources: Vec::new(), validator: None }
    }

    /// Adds a file in the given format.
    pub fn add_file(self, path: &str, format: ConfigFormat) -> (r: ConfigurationBuilder)
        ensures
            r.name == self.name,
            r.validator == self.validator,
            r.sources@.len() == self.sources@.len() + 1,
            r.sources@.drop_last() == self.sources@,
            r.sources@.last() matches ConfigSource::File { path: p, format: f, encoding: None } && p@ == path@ && f == format,
    {
        let mut b = self;
        b.sources.push(ConfigSource::File { path: owned(path), format, encoding: None });
        assert(b.sources@.drop_last() =~= self.sources@);
        b
    }

    /// Adds the environment, with an optional prefix.
    pub fn add_environment(self, prefix: Option<String>) -> (r: ConfigurationBuilder)
        ensures
            r.name == self.name,
            r.validator == self.validator,
            r.sources@.len() == self.sources@.len() + 1,
            r.sources@.drop_last() == self.sources@,
            r.sources@.last() == (ConfigSource::Environment { prefix, separator: None }),
    {
        let mut b = self;
        b.sources.push(ConfigSource::Environment { prefix, separator: None });
        assert(b.sources@.drop_last() =~= self.sources@);
        b
    }

    /// Adds command-line arguments.
    pub fn add_command_line(self, args: Vec<String>) -> (r: ConfigurationBuilder)
        ensures
            r.name == self.name,
            r.validator == self.validator,
            r.sources@.len() == self.sources@.len() + 1,
            r.sources@.drop_last() == self.sources@,
            r.sources@.last() == (ConfigSource::CommandLine { args }),
    {
        let mut b = self;
        b.sources.push(ConfigSource::CommandLine { args });
        assert(b.sources@.drop_last() =~= self.sources@);
        b
    }

    /// Names the validator.
    pub fn with_validator(self, validator: &str) -> (r: ConfigurationBuilder)
        ensures
            r.name == self.name,
            r.sources == self.sources,
            r.validator matches Some(v) && v@ == validator@,
    {
        ConfigurationBuilder { validator: Some(owned(validator)), ..self }
    }

    /// The specification; it always succeeds.
    pub fn build(self) -> (r: Result<ConfigurationSpec, AppError>)
        ensures
            r matches Ok(s) && s.name == self.name && s.sources == self.sources && s.validator == self.validator,
    {
        Ok(ConfigurationSpec { name: self.name, sources: self.sources, validator: self.validator })
    }
}

/// A specification with two files of the given formats, the environment
/// under a prefix and the default validator.
fn standard_config(name: &str, first: &str, first_format: ConfigFormat, second: &str, second_format: ConfigFormat, prefix: &str) -> (r: ConfigurationSpec)
    ensures
        r.name@ == name@,
        r.sources@.len() == 3,
        r.sources@[0] matches ConfigSource::File { path: p, format: f, encoding: None } && p@ == first@ && f == first_format,
        r.sources@[1] matches ConfigSource::File { path: p, format: f, encoding: None } && p@ == second@ && f == second_format,
        r.sources@[2] matches ConfigSource::Environment { prefix: Some(p), separator: None } && p@ == prefix@,
        r.validator matches Some(v) && v@ == "default"@,
{
    let b = ConfigurationBuilder::new(name)
        .add_file(first, first_format)
        .add_file(second, second_format)
        .add_environment(Some(owned(prefix)))
        .with_validator("default");
    match b.build() {
        Ok(s) => s,
        Err(_) => ConfigurationSpec { name: owned(name), sources: Vec::new(), validator: None },
    }
}

/// The application's configuration: `config/app.json`, then
/// `config/app.local.json`, then the `APP_` environment.
pub fn create_app_config(name: &str) -> (r: ConfigurationSpec)
    ensures
        r.name@ == name@,
        r.sources@.len() == 3,
        r.sources@[0] matches ConfigSource::File { path: p, format: ConfigFormat::Json, encoding: None } && p@ == "config/app.json"@,
        r.sources@[1] matches ConfigSource::File { path: p, format: ConfigFormat::Json, encoding: None } && p@ == "config/app.local.json"@,
        r.sources@[2] matches ConfigSource::Environment { prefix: Some(p), separator: None } && p@ == "APP_"@,
        r.validator matches Some(v) && v@ == "default"@,
{
    standard_config(name, "config/app.json", ConfigFormat::Json, "config/app.local.json", ConfigFormat::Json, "APP_")
}

/// The server's configuration: `config/server.json`, then
/// `config/server.toml`, then the `SERVER_` environment.
pub fn create_server_config(name: &str) -> (r: ConfigurationSpec)
    ensures
        r.name@ == name@,
        r.sources@.len() == 3,
        r.sources@[0] matches ConfigSource::File { path: p, format: ConfigFormat::Json, encoding: None } && p@ == "config/server.json"@,
        r.sources@[1] matches ConfigSource::File { path: p, format: ConfigFormat::Toml, encoding: None } && p@ == "config/server.toml"@,
        r.sources@[2] matches ConfigSource::Environment { prefix: Some(p), separator: None } && p@ == "SERVER_"@,
        r.validator matches Some(v) && v@ == "default"@,
{
    standard_config(name, "config/server.json", ConfigFormat::Json, "config/server.toml", ConfigFormat::Toml, "SERVER_")
}

/// The database's configuration: `config/database.json`, then
/// `config/database.yaml`, then the `DB_` environment.
pub fn create_database_config(name: &str) -> (r: ConfigurationSpec)
    ensures
        r.name@ == name@,
        r.sources@.len() == 3,
        r.sources@[0] matches ConfigSource::File { path: p, format: ConfigFormat::Json, encoding: None } && p@ == "config/database.json"@,
        r.sources@[1] matches ConfigSource::File { path: p, format: ConfigFormat::Yaml, encoding: None } && p@ == "config/database.yaml"@,
        r.sources@[2] matches ConfigSource::Environment { prefix: Some(p), separator: None } && p@ == "DB_"@,
        r.validator matches Some(v) && v@ == "default"@,
{
    standard_config(name, "config/database.json", ConfigFormat::Json, "config/database.yaml", ConfigFormat::Yaml, "DB_")
}

/// Whether a value has the named type; `any` accepts every value.
pub fn validate_config_type(value: &ConfigValue, expected_type: &str) -> (r: bool)
    ensures
        r == (expected_type@ == "any"@ || value.spec_value_type_name() == expected_type@),
{
    if crate::text::str_eq(expected_type, "any") {
        return true;
    }
    crate::text::str_eq(value.value_type_name(), expected_type)
}

} // verus!
