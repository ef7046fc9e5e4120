//! Metrics: built-in and custom data, submitted periodically.

pub mod metric;
pub mod platform;
pub mod service;
