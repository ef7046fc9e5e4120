//! The data that the services work on.

pub mod attributes;
pub mod config;
pub mod sdk_info;
pub mod server_id;
