//! A Rust SDK for FastStats: anonymous metrics, error tracking and feature
//! flags.
//!
//! The crate holds what the SDK decides and computes: the configuration and
//! the state that is kept between runs, the bodies and headers of requests,
//! what is made of responses, and which service runs when. It does no input
//! or output itself. The values of environment variables, the contents of
//! files, the time and the outcomes of requests are handed in; requests and
//! log lines are handed back. No function of the crate panics, unless the
//! machine has no random bytes for a new server id.

pub mod client;
pub mod domain;
pub mod error;
pub mod error_tracking;
pub mod feature_flags;
pub mod features;
pub mod json;
pub mod laws;
pub mod metrics;
pub mod regexes;
pub mod text;
pub mod transport;
pub mod validated;
pub mod value;

pub use client::{Client, ClientBuilder};
pub use domain::attributes::Attributes;
pub use domain::config::Config;
pub use domain::sdk_info::SdkInfo;
pub use domain::server_id::ServerId;
pub use error::Error;
pub use error_tracking::service::{ErrorTracker, Factory as ErrorTrackerFactory};
pub use error_tracking::tracker::{IgnoreRule, TrackedError};
pub use feature_flags::flag::FeatureFlag;
pub use feature_flags::service::{Factory as FeatureFlagsFactory, FeatureFlags};
pub use feature_flags::value::FlagValue;
pub use metrics::metric::Metric;
pub use metrics::service::{Factory as MetricsFactory, Metrics, MetricsEvent};
pub use regexes::Pattern;
pub use transport::{SubmissionOutcome, Transport};
pub use validated::id::Id;
pub use validated::token::Token;
pub use value::{JsonMap, JsonValue, Number};
