//! Strings that are checked once, when they are made.

pub mod id;
pub mod token;
