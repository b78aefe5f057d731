//! The command layer in front of the database: command dispatch, request
//! batching, response caching and request metrics.

pub mod performance;
