//! Shared configuration types: formats, sources metadata, health states.

use vstd::prelude::*;

verus! {

/// Configuration file formats.
#[derive(Debug, Clone, Copy, PartialEq, Eq, Structural)]
pub enum ConfigFormat {
    Json,
    Yaml,
    Toml,
    Ini,
    Xml,
    Properties,
}

impl ConfigFormat {
    /// The name of the format, as `Debug` shows it.
    pub open spec fn spec_debug_name(self) -> Seq<char> {
        match self {
            ConfigFormat::Json => "Json"@,
            ConfigFormat::Yaml => "Yaml"@,
            ConfigFormat::Toml => "Toml"@,
            ConfigFormat::Ini => "Ini"@,
            ConfigFormat::Xml => "Xml"@,
            ConfigFormat::Properties => "Properties"@,
        }
    }

    /// The name of the format, as `Debug` shows it.
    pub fn debug_name(self) -> (r: &'static str)
        ensures
            r@ == self.spec_debug_name(),
    {
        match self {
            ConfigFormat::Json => "Json",
            ConfigFormat::Yaml => "Yaml",
            ConfigFormat::Toml => "Toml",
            ConfigFormat::Ini => "Ini",
            ConfigFormat::Xml => "Xml",
            ConfigFormat::Properties => "Properties",
        }
    }
}

/// Secret stores a configuration can be read from.
#[derive(Debug, Clone, Copy, PartialEq, Eq, Structural)]
pub enum VaultType {
    HashiCorpVault,
    AwsSecretsManager,
    AzureKeyVault,
    GoogleSecretManager,
}

/// How a secret store is authenticated against.
#[derive(Debug, Clone)]
pub enum VaultAuth {
    Token(String),
    AppRole { role_id: String, secret_id: String },
    AwsIam { role: String },
    AzureManagedIdentity,
    GcpServiceAccount { key_path: String },
}

/// Authentication kinds of a remote source.
#[derive(Debug, Clone, Copy, PartialEq, Eq, Structural)]
pub enum AuthType {
    NoAuth,
    BearerToken,
    BasicAuth,
    ApiKey,
    OAuth2,
    Custom,
}

/// Authentication of a remote source; credentials and headers are
/// key/value pairs.
#[derive(Debug, Clone)]
pub struct AuthConfig {
    pub auth_type: AuthType,
    pub credentials: Vec<(String, String)>,
    pub headers: Option<Vec<(String, String)>>,
}

/// Kinds of configuration change.
#[derive(Debug, Clone, Copy, PartialEq, Eq, Structural)]
pub enum ChangeType {
    Created,
    Updated,
    Deleted,
    Moved,
}

/// States of a configuration watcher.
#[derive(Debug, Clone, Copy, PartialEq, Eq, Structural)]
pub enum WatcherStatus {
    Stopped,
    Starting,
    Running,
    Stopping,
    Error,
}

/// Health of a configuration provider.
#[derive(Debug, Clone, Copy, PartialEq, Eq, Structural)]
pub enum HealthStatus {
    Healthy,
    Degraded,
    Unhealthy,
}

/// Description of a configuration provider.
#[derive(Debug, Clone)]
pub struct ProviderMetadata {
    pub name: String,
    pub version: String,
    pub description: String,
    pub capabilities: Vec<String>,
    pub supported_formats: Vec<ConfigFormat>,
    pub read_only: bool,
    pub supports_watching: bool,
    pub supports_encryption: bool,
}

/// Description of a configuration loader.
#[derive(Debug, Clone)]
pub struct LoaderMetadata {
    pub name: String,
    pub version: String,
    pub description: String,
    pub supported_sources: Vec<String>,
    pub supported_formats: Vec<ConfigFormat>,
}

/// Description of a configuration validator.
#[derive(Debug, Clone)]
pub struct ValidatorMetadata {
    pub name: String,
    pub version: String,
    pub description: String,
    pub supported_types: Vec<String>,
}

/// Description of a configuration watcher.
#[derive(Debug, Clone)]
pub struct WatcherMetadata {
    pub name: String,
    pub version: String,
    pub description: String,
    pub supported_sources: Vec<String>,
}

/// Description of a configuration manager.
#[derive(Debug, Clone)]
pub struct ManagerMetadata {
    pub name: String,
    pub version: String,
    pub description: String,
    pub providers: Vec<String>,
    pub capabilities: Vec<String>,
}

/// The outcome of a provider's health check; the instant is in
/// milliseconds since the Unix epoch.
#[derive(Debug, Clone)]
pub struct ProviderHealth {
    pub status: HealthStatus,
    pub message: String,
    pub last_check_ms: i64,
    pub response_time_ms: Option<u64>,
    pub details: Vec<(String, String)>,
}

} // verus!
