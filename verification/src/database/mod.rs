//! Database-facing logic: health assessment of the lottery database and the
//! planning of cached, optimised queries. The queries themselves run in the
//! application; this module decides what they are and what their results mean.

pub mod health;
pub mod query;
pub mod timed_cache;
pub mod performance;
pub mod config;
