//! Error tracking: anonymized, deduplicated error reports.

pub mod helper;
pub mod hooks;
pub mod service;
pub mod tracker;
