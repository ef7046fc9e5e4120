//! What the functions of the crate promise together, stated of their
//! arguments and results: how two calls relate, and what a result satisfies
//! whatever it was computed from.

pub mod anonymization;
pub mod clients;
pub mod copies;
pub mod flags;
pub mod metrics;
pub mod reports;
pub mod settings;
pub mod stacks;
pub mod texts;
pub mod transport;
pub mod values;
