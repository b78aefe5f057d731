//! Core logic of the lottery desktop application: configuration errors and
//! key mapping, logging levels, filters and formatters, caching, dependency
//! injection bookkeeping and error classification.

pub mod assoc;
pub mod text;
pub mod order;
pub mod config;
pub mod error;
pub mod clock;
pub mod logging;
pub mod patterns;
pub mod parse;
pub mod di;
pub mod database;
pub mod api;
pub mod cache;
pub mod models;
pub mod performance;
pub mod auth;
