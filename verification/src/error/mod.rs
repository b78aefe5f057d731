//! Application-wide error kinds, error contexts and error statistics.

pub mod context;
pub mod logger;
pub mod types;
