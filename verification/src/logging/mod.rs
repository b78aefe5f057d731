//! Structured logging: levels and records, errors, filters, formatters,
//! context extraction and configuration.

pub mod context;
pub mod error;
pub mod filter;
pub mod formatter;
pub mod logger;
pub mod metrics;
pub mod traits;
