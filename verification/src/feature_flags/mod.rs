//! Feature flags: values that a server decides, fetched on demand and kept
//! for a while.

pub mod cache;
pub mod flag;
pub mod service;
pub mod value;
