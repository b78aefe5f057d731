//! Configuration management: error classification, environment key
//! mapping, providers and validation rules.

pub mod error;
pub mod provider;
pub mod traits;
pub mod types;
pub mod value;
pub mod double;
pub mod validator;
pub mod data;
pub mod manager;
pub mod layout;
pub mod file_provider;
pub mod loader;
pub mod error_metrics;
