//! The client: ties the configuration, the token and the three services
//! (metrics, error tracking, feature flags) together.
//!
//! A service runs only if the developer enabled it and the end user's
//! configuration allows it. On the first run of an installation nothing is
//! submitted; the client only says what would be.

pub mod state;

use std::sync::Arc;

use vstd::prelude::*;

use self::state::State;
use crate::domain::config::{
    all_on, both, env_toggle, with_env, Config, ConfigView, EnvOverrides,
};
use crate::domain::sdk_info::{SdkInfo, SdkInfoView};
use crate::domain::server_id::ServerId;
use crate::error::{Error, ErrorView};
use crate::error_tracking::service::{error_url, ErrorTracker, ErrorTrackerView};
use crate::feature_flags::service::{
    flags_urls, fresh_entries, FeatureFlags, FeatureFlagsView, FlagUrls,
};
use crate::metrics::service::{collect_url, Metrics, MetricsView};
use crate::text::{opt_str, opt_text};
use crate::transport::{Transport, TransportView};
use crate::validated::token::Token;
use crate::value::JsonValue;

verus! {

/// The name of this SDK.
pub const SDK_NAME: &'static str = "faststats-rs";

/// The version of this SDK.
pub const SDK_VERSION: &'static str = "0.1.0";

/// The values of the environment variables that override the servers; a
/// variable that is not set has none.
#[derive(Debug)]
pub struct ServerOverrides {
    /// `FASTSTATS_METRICS_SERVER`
    pub metrics: Option<String>,
    /// `FASTSTATS_ERROR_TRACKER_SERVER`
    pub error_tracking: Option<String>,
    /// `FASTSTATS_FLAGS_SERVER`
    pub feature_flags: Option<String>,
}

/// The user agent for a project.
pub open spec fn user_agent_text(name: Seq<char>, version: Seq<char>) -> Seq<char> {
    "FastStats Rust SDK v"@ + SDK_VERSION@ + " ("@ + name + ":"@ + version + ")"@
}

/// Builds a [`Client`]. Metrics, callbacks, ignore rules, patterns and flags
/// are registered on the factory of the service that they belong to.
pub struct ClientBuilder<F: Fn() -> Result<Option<JsonValue>, Error>, G: Fn()> {
    config: Config,
    environment: Config,
    token: Token,
    sdk_info: SdkInfo,
    metrics: crate::metrics::service::Factory<F, G>,
    error_tracking: crate::error_tracking::service::Factory,
    feature_flags: crate::feature_flags::service::Factory,
    metrics_enabled: bool,
    error_tracking_enabled: bool,
    feature_flags_enabled: bool,
}

/// What a [`ClientBuilder`] holds.
#[verifier::reject_recursive_types(F)]
#[verifier::reject_recursive_types(G)]
pub struct ClientBuilderView<F: Fn() -> Result<Option<JsonValue>, Error>, G: Fn()> {
    pub config: ConfigView,
    pub environment: ConfigView,
    pub token: Seq<char>,
    pub sdk_info: SdkInfoView,
    pub metrics: crate::metrics::service::Factory<F, G>,
    pub error_tracking: crate::error_tracking::service::Factory,
    pub feature_flags: crate::feature_flags::service::Factory,
    pub metrics_enabled: bool,
    pub error_tracking_enabled: bool,
    pub feature_flags_enabled: bool,
}

impl<F: Fn() -> Result<Option<JsonValue>, Error>, G: Fn()> View for ClientBuilder<F, G> {
    type V = ClientBuilderView<F, G>;

    closed spec fn view(&self) -> ClientBuilderView<F, G> {
        ClientBuilderView {
            config: self.config@,
            environment: self.environment@,
            token: self.token@,
            sdk_info: self.sdk_info@,
            metrics: self.metrics,
            error_tracking: self.error_tracking,
            feature_flags: self.feature_flags,
            metrics_enabled: self.metrics_enabled,
            error_tracking_enabled: self.error_tracking_enabled,
            feature_flags_enabled: self.feature_flags_enabled,
        }
    }
}

/// Whether a builder is as a new one is: every service enabled, nothing
/// registered, and the configuration that of the environment.
pub open spec fn is_new_builder<F: Fn() -> Result<Option<JsonValue>, Error>, G: Fn()>(
    builder: ClientBuilderView<F, G>,
    project_name: Seq<char>,
    token: Seq<char>,
    sdk_info: SdkInfoView,
    env: EnvOverrides,
) -> bool {
    &&& builder.config == with_env(all_on(ServerId(0)), env)
    &&& builder.environment == with_env(all_on(ServerId(0)), env)
    &&& builder.token == token
    &&& builder.sdk_info == sdk_info
    &&& builder.metrics@ == (crate::metrics::service::FactoryView::<F, G> {
        project_name,
        project_version: sdk_info.version,
        metrics: seq![],
        flush: seq![],
    })
    &&& builder.error_tracking@ == (crate::error_tracking::service::FactoryView {
        project_name,
        sdk_info,
        rules: seq![],
        patterns: seq![],
        attributes: None,
    })
    &&& builder.feature_flags@ == (crate::feature_flags::service::FactoryView {
        flags: seq![],
        attributes: None,
        ttl: crate::feature_flags::service::DEFAULT_TTL,
    })
    &&& builder.metrics_enabled
    &&& builder.error_tracking_enabled
    &&& builder.feature_flags_enabled
}

/// The configuration of a client: a toggle is on only if it is on in the
/// developer's configuration and in the persisted one, and the environment
/// does not turn it off. The server id is the persisted one.
pub open spec fn client_config(
    developer: ConfigView,
    persisted: ConfigView,
    environment: ConfigView,
) -> ConfigView {
    both(
        both(ConfigView { server_id: persisted.server_id, ..developer }, persisted),
        environment,
    )
}

/// Why the services of a client cannot be built, if they cannot: the first
/// address that is wrong.
pub open spec fn build_failure(
    metrics_enabled: bool,
    error_tracking_enabled: bool,
    feature_flags_enabled: bool,
    servers: ServerOverrides,
) -> Option<ErrorView> {
    match (
        collect_url(opt_text(servers.metrics)),
        error_url(opt_text(servers.error_tracking)),
        flags_urls(opt_text(servers.feature_flags)),
    ) {
        (Err(e), _, _) if metrics_enabled => Some(e),
        (_, Err(e), _) if error_tracking_enabled => Some(e),
        (_, _, Err(e)) if feature_flags_enabled => Some(e),
        _ => None,
    }
}

impl<F: Fn() -> Result<Option<JsonValue>, Error>, G: Fn()> ClientBuilder<F, G> {
    /// Starts building a client. `env` holds the overrides of the
    /// environment.
    pub fn new(project_name: &str, project_version: &str, token: Token, env: &EnvOverrides) -> (r:
        Result<Self, Error>)
        ensures
            r is Ok,
            is_new_builder(
                r->Ok_0@,
                project_name@,
                token@,
                SdkInfoView {
                    name: SDK_NAME@,
                    version: SDK_VERSION@,
                    user_agent: user_agent_text(project_name@, project_version@),
                },
                *env,
            ),
    {
        let mut user_agent = "FastStats Rust SDK v".to_owned();
        user_agent.append(SDK_VERSION);
        user_agent.append(" (");
        user_agent.append(project_name);
        user_agent.append(":");
        user_agent.append(project_version);
        user_agent.append(")");
        proof {
            reveal_strlit("faststats-rs");
            reveal_strlit("0.1.0");
            reveal_strlit("FastStats Rust SDK v");
            assert(SDK_NAME@[0] == 'f');
            assert(SDK_VERSION@[0] == '0');
            assert(user_agent@[0] == 'F');
        }
        match SdkInfo::new(SDK_NAME, SDK_VERSION, user_agent.as_str()) {
            Ok(sdk_info) => Ok(Self::new_with_sdk_info(project_name, token, sdk_info, env)),
            Err(_) => Err(Error::Initialization("sdk info failure".to_owned())),
        }
    }

    /// Starts building a client of another SDK that builds on this one.
    pub fn new_with_sdk_info(
        project_name: &str,
        token: Token,
        sdk_info: SdkInfo,
        env: &EnvOverrides,
    ) -> (r: Self)
        ensures
            is_new_builder(r@, project_name@, token@, sdk_info@, *env),
    {
        let metrics = crate::metrics::service::Factory::new(project_name, sdk_info.version());
        let error_tracking = crate::error_tracking::service::Factory::new(
            project_name,
            sdk_info.clone(),
        );
        let environment = Config::from_env(ServerId::nil(), env);
        ClientBuilder {
            config: environment,
            environment,
            token,
            sdk_info,
            metrics,
            error_tracking,
            feature_flags: crate::feature_flags::service::Factory::new(),
            metrics_enabled: true,
            error_tracking_enabled: true,
            feature_flags_enabled: true,
        }
    }

    /// Replaces the configuration. Its server id does not matter: a client
    /// takes the persisted one. What the environment turns off stays off.
    pub fn config(self, config: Config) -> (r: Self)
        ensures
            r@ == (ClientBuilderView { config: config@, ..self@ }),
    {
        let mut r = self;
        r.config = config;
        r
    }

    /// The configuration that the client is built with.
    pub fn default_config(&self) -> (r: &Config)
        ensures
            r@ == self@.config,
    {
        &self.config
    }

    /// Enables or disables the metrics service, which is enabled by default.
    /// It runs only if the configuration allows it, too.
    pub fn metrics(self, enabled: bool) -> (r: Self)
        ensures
            r@ == (ClientBuilderView { metrics_enabled: enabled, ..self@ }),
    {
        let mut r = self;
        r.metrics_enabled = enabled;
        r
    }

    /// Enables or disables the error tracking service, which is enabled by
    /// default. It runs only if the configuration allows it, too.
    pub fn error_tracking(self, enabled: bool) -> (r: Self)
        ensures
            r@ == (ClientBuilderView { error_tracking_enabled: enabled, ..self@ }),
    {
        let mut r = self;
        r.error_tracking_enabled = enabled;
        r
    }

    /// Enables or disables the feature flag service, which is enabled by
    /// default. It is active only if the configuration allows it, too.
    pub fn feature_flags(self, enabled: bool) -> (r: Self)
        ensures
            r@ == (ClientBuilderView { feature_flags_enabled: enabled, ..self@ }),
    {
        let mut r = self;
        r.feature_flags_enabled = enabled;
        r
    }

    /// Hands the metrics factory to `configure`, and takes back what it
    /// makes of it.
    pub fn metrics_factory<
        C: FnOnce(crate::metrics::service::Factory<F, G>) -> Result<
            crate::metrics::service::Factory<F, G>,
            Error,
        >,
    >(self, configure: C) -> (r: Result<Self, Error>)
        requires
            configure.requires((self@.metrics,)),
        ensures
            match r {
                Ok(builder) => configure.ensures((self@.metrics,), Ok(builder@.metrics))
                    && builder@ == (ClientBuilderView { metrics: builder@.metrics, ..self@ }),
                Err(e) => configure.ensures((self@.metrics,), Err(e)),
            },
    {
        let mut r = self;
        match configure(r.metrics) {
            Ok(metrics) => {
                r.metrics = metrics;
                Ok(r)
            },
            Err(e) => Err(e),
        }
    }

    /// Hands the error tracking factory to `configure`, and takes back what
    /// it makes of it.
    pub fn error_tracking_factory<
        C: FnOnce(crate::error_tracking::service::Factory) -> crate::error_tracking::service::Factory,
    >(self, configure: C) -> (r: Self)
        requires
            configure.requires((self@.error_tracking,)),
        ensures
            configure.ensures((self@.error_tracking,), r@.error_tracking),
            r@ == (ClientBuilderView { error_tracking: r@.error_tracking, ..self@ }),
    {
        let mut r = self;
        r.error_tracking = configure(r.error_tracking);
        r
    }

    /// Hands the feature flag factory to `configure`, and takes back what it
    /// makes of it.
    pub fn feature_flags_factory<
        C: FnOnce(crate::feature_flags::service::Factory) -> Result<
            crate::feature_flags::service::Factory,
            Error,
        >,
    >(self, configure: C) -> (r: Result<Self, Error>)
        requires
            configure.requires((self@.feature_flags,)),
        ensures
            match r {
                Ok(builder) => configure.ensures((self@.feature_flags,), Ok(builder@.feature_flags))
                    && builder@ == (ClientBuilderView {
                    feature_flags: builder@.feature_flags,
                    ..self@
                }),
                Err(e) => configure.ensures((self@.feature_flags,), Err(e)),
            },
    {
        let mut r = self;
        match configure(r.feature_flags) {
            Ok(feature_flags) => {
                r.feature_flags = feature_flags;
                Ok(r)
            },
            Err(e) => Err(e),
        }
    }
}

/// Whether the metrics service is the one that a builder describes.
pub open spec fn is_built_metrics<F: Fn() -> Result<Option<JsonValue>, Error>, G: Fn()>(
    service: MetricsView<F, G>,
    builder: ClientBuilderView<F, G>,
    config: ConfigView,
    servers: ServerOverrides,
) -> bool {
    &&& collect_url(opt_text(servers.metrics)) == Ok::<Seq<char>, ErrorView>(service.url)
    &&& service == (MetricsView {
        transport: TransportView { token: builder.token, sdk_info: builder.sdk_info },
        url: service.url,
        project_name: builder.metrics@.project_name,
        project_version: builder.metrics@.project_version,
        server_id: config.server_id,
        metrics: if config.additional_metrics {
            builder.metrics@.metrics
        } else {
            seq![]
        },
        flush: builder.metrics@.flush,
    })
}

/// Whether the error tracking service is the one that a builder describes.
pub open spec fn is_built_tracker<F: Fn() -> Result<Option<JsonValue>, Error>, G: Fn()>(
    service: ErrorTrackerView,
    builder: ClientBuilderView<F, G>,
    config: ConfigView,
    servers: ServerOverrides,
) -> bool {
    &&& error_url(opt_text(servers.error_tracking)) == Ok::<Seq<char>, ErrorView>(service.url)
    &&& service == (ErrorTrackerView {
        transport: TransportView { token: builder.token, sdk_info: builder.sdk_info },
        url: service.url,
        project_name: builder.error_tracking@.project_name,
        sdk_info: builder.error_tracking@.sdk_info,
        server_id: config.server_id,
        patterns: builder.error_tracking@.patterns,
        attributes: builder.error_tracking@.attributes,
        rules: builder.error_tracking@.rules,
        pending: seq![],
        panic_hook_installed: false,
    })
}

/// Whether the feature flag service is the one that a builder describes.
pub open spec fn is_built_flags<F: Fn() -> Result<Option<JsonValue>, Error>, G: Fn()>(
    service: FeatureFlagsView,
    builder: ClientBuilderView<F, G>,
    config: ConfigView,
    servers: ServerOverrides,
) -> bool {
    &&& flags_urls(opt_text(servers.feature_flags)) == Ok::<FlagUrls, ErrorView>(service.urls)
    &&& service == (FeatureFlagsView {
        transport: TransportView { token: builder.token, sdk_info: builder.sdk_info },
        urls: service.urls,
        server_id: config.server_id,
        attributes: builder.feature_flags@.attributes,
        ttl: builder.feature_flags@.ttl,
        entries: fresh_entries(builder.feature_flags@.flags),
    })
}

fn as_opt_str(s: &Option<String>) -> (r: Option<&str>)
    ensures
        opt_str(r) == opt_text(*s),
{
    match s {
        Some(s) => Some(s.as_str()),
        None => None,
    }
}

impl<F: Fn() -> Result<Option<JsonValue>, Error>, G: Fn()> ClientBuilder<F, G> {
    /// Builds the [`Client`], with the services that are enabled. `state` is
    /// the persisted state; a toggle that is off there, in the builder's
    /// configuration or in the environment is off.
    pub fn build(self, state: &State, servers: &ServerOverrides) -> (r: Result<
        Client<Metrics<F, G>, ErrorTracker, FeatureFlags>,
        Error,
    >)
        ensures
            match r {
                Ok(client) => {
                    let config = client_config(
                        self@.config,
                        state.config@,
                        self@.environment,
                    );
                    &&& build_failure(
                        self@.metrics_enabled,
                        self@.error_tracking_enabled,
                        self@.feature_flags_enabled,
                        *servers,
                    ) is None
                    &&& client@.config == config
                    &&& client@.token == self@.token
                    &&& client@.sdk_info == self@.sdk_info
                    &&& client@.is_first_boot == state.is_first_boot
                    &&& !client@.ready
                    &&& client@.metrics is Some == self@.metrics_enabled
                    &&& client@.metrics is Some ==> is_built_metrics(
                        client@.metrics->0@,
                        self@,
                        config,
                        *servers,
                    )
                    &&& client@.error_tracking is Some == self@.error_tracking_enabled
                    &&& client@.error_tracking is Some ==> is_built_tracker(
                        client@.error_tracking->0@,
                        self@,
                        config,
                        *servers,
                    )
                    &&& client@.feature_flags is Some == self@.feature_flags_enabled
                    &&& client@.feature_flags is Some ==> is_built_flags(
                        client@.feature_flags->0@,
                        self@,
                        config,
                        *servers,
                    )
                },
                Err(e) => build_failure(
                    self@.metrics_enabled,
                    self@.error_tracking_enabled,
                    self@.feature_flags_enabled,
                    *servers,
                ) == Some(e@),
            },
    {
        let config = self.config.clone_with_server_id(state.config.server_id()).and(
            &state.config,
        ).and(&self.environment);
        let transport = Arc::new(Transport::new(self.token.clone(), self.sdk_info.clone()));
        let metrics = if self.metrics_enabled {
            match self.metrics.build(
                transport.clone(),
                config.server_id(),
                config.additional_metrics(),
                as_opt_str(&servers.metrics),
            ) {
                Ok(service) => Some(service),
                Err(e) => {
                    return Err(e);
                },
            }
        } else {
            None
        };
        let error_tracking = if self.error_tracking_enabled {
            match self.error_tracking.build(
                transport.clone(),
                config.server_id(),
                as_opt_str(&servers.error_tracking),
            ) {
                Ok(service) => Some(service),
                Err(e) => {
                    return Err(e);
                },
            }
        } else {
            None
        };
        let feature_flags = if self.feature_flags_enabled {
            match self.feature_flags.build(
                transport.clone(),
                config.server_id(),
                as_opt_str(&servers.feature_flags),
            ) {
                Ok(service) => Some(service),
                Err(e) => {
                    return Err(e);
                },
            }
        } else {
            None
        };
        Ok(
            Client {
                config,
                token: self.token,
                sdk_info: self.sdk_info,
                is_first_boot: state.is_first_boot,
                ready: false,
                metrics,
                error_tracking,
                feature_flags,
            },
        )
    }
}

/// The public FastStats client, with its services as `M`, `E` and `L`. A
/// service is there only if the developer enabled it; whether it submits is
/// up to the configuration, too.
pub struct Client<M, E, L> {
    config: Config,
    token: Token,
    sdk_info: SdkInfo,
    is_first_boot: bool,
    ready: bool,
    metrics: Option<M>,
    error_tracking: Option<E>,
    feature_flags: Option<L>,
}

/// What a [`Client`] holds.
pub struct ClientView<M, E, L> {
    pub config: ConfigView,
    pub token: Seq<char>,
    pub sdk_info: SdkInfoView,
    pub is_first_boot: bool,
    pub ready: bool,
    pub metrics: Option<M>,
    pub error_tracking: Option<E>,
    pub feature_flags: Option<L>,
}

impl<M, E, L> View for Client<M, E, L> {
    type V = ClientView<M, E, L>;

    closed spec fn view(&self) -> ClientView<M, E, L> {
        ClientView {
            config: self.config@,
            token: self.token@,
            sdk_info: self.sdk_info@,
            is_first_boot: self.is_first_boot,
            ready: self.ready,
            metrics: self.metrics,
            error_tracking: self.error_tracking,
            feature_flags: self.feature_flags,
        }
    }
}

/// Whether the client may submit metrics: the service is there, the
/// configuration allows it, and this is not the first run.
pub open spec fn submits_metrics<M, E, L>(client: ClientView<M, E, L>) -> bool {
    client.metrics is Some && client.config.enabled && client.config.submit_metrics
        && !client.is_first_boot
}

/// Whether the client may submit errors: the service is there, the
/// configuration allows it, and this is not the first run.
pub open spec fn submits_errors<M, E, L>(client: ClientView<M, E, L>) -> bool {
    client.error_tracking is Some && client.config.enabled && client.config.error_tracking
        && !client.is_first_boot
}

/// What the start of a client asks for.
#[derive(Debug)]
pub enum StartPlan {
    /// Nothing: the client was started before.
    AlreadyStarted,
    /// Nothing but these lines of a notice: this is the first run.
    FirstBoot(Vec<&'static str>),
    /// To run services.
    Run(RunPlan),
}

/// The services that a started client runs.
#[derive(Debug)]
pub struct RunPlan {
    /// Whether metrics are submitted periodically.
    pub metrics: bool,
    /// Whether errors are submitted periodically, and the panic hook is
    /// installed.
    pub error_tracking: bool,
    /// Whether the error tracker listens to the metrics service.
    pub metrics_events: bool,
    /// What to say about services that the configuration keeps from running.
    pub notes: Vec<&'static str>,
}

/// What the end of a client asks for.
#[derive(Clone, Copy, Debug, PartialEq, Eq, Structural)]
pub enum ShutdownPlan {
    /// Nothing: the client is not running.
    NotStarted,
    /// To end the periodic submissions, and then to submit what is left.
    Stop {
        /// Whether metrics are submitted one more time.
        flush_metrics: bool,
        /// Whether errors are submitted one more time.
        flush_errors: bool,
        /// Whether the panic hook has to be given up.
        detach: bool,
    },
}

/// The texts of lines.
pub open spec fn line_texts(lines: Seq<&'static str>) -> Seq<Seq<char>> {
    lines.map_values(|line: &'static str| line@)
}

/// The first line of the notice on the first run.
pub const NOTICE_INTRODUCTION: &'static str =
    "FastStats is collecting anonymous usage data to help improve this project. This is the first run, so nothing is submitted yet, submission begins on the next run.";

/// The line of the notice about metrics.
pub const NOTICE_METRICS: &'static str =
    "  - Metrics (platform info plus any custom metrics registered by this application) will be sent every 30 minutes. Disable with FASTSTATS_SUBMIT_METRICS=false or by editing the config file.";

/// The line of the notice about errors.
pub const NOTICE_ERROR_TRACKING: &'static str =
    "  - Error reports (panics and manually tracked errors) will be sent every 30 minutes. Disable with FASTSTATS_ERROR_TRACKING=false or by editing the config file.";

/// The line of the notice about feature flags.
pub const NOTICE_FEATURE_FLAGS: &'static str =
    "  - Feature flag values will be fetched on demand. Disable all FastStats data collection with FASTSTATS_ENABLED=false or by editing the config file.";

/// The last line of the notice on the first run.
pub const NOTICE_CONCLUSION: &'static str =
    "  - To disable FastStats entirely, set the FASTSTATS_ENABLED=false environment variable. To start submitting immediately instead of waiting for the next run, set FASTSTATS_ENABLED=true.";

/// What is said if the configuration keeps metrics from being submitted.
pub const NOTE_METRICS: &'static str =
    "Metrics service enabled by developer but disabled via Config::submit_metrics; not starting";

/// What is said if the configuration keeps errors from being submitted.
pub const NOTE_ERROR_TRACKING: &'static str =
    "Error tracking service enabled by developer but disabled via Config::error_tracking; not starting";

/// What is said if everything is off, and so metrics are not submitted.
pub const NOTE_METRICS_ALL_OFF: &'static str =
    "Metrics service enabled by developer but disabled via Config::enabled; not starting";

/// What is said if everything is off, and so errors are not submitted.
pub const NOTE_ERROR_TRACKING_ALL_OFF: &'static str =
    "Error tracking service enabled by developer but disabled via Config::enabled; not starting";

/// What is said if the configuration keeps feature flags from being fetched.
pub const NOTE_FEATURE_FLAGS: &'static str =
    "Feature flags service enabled by developer but disabled via Config::enabled; fetches will be skipped by callers checking Client::config()";

/// A line, if the condition holds.
pub open spec fn line_if(condition: bool, line: Seq<char>) -> Seq<Seq<char>> {
    if condition {
        seq![line]
    } else {
        seq![]
    }
}

/// The notice on the first run: what FastStats is, what each service that is
/// there would send, and how to disable it.
pub open spec fn notice<M, E, L>(client: ClientView<M, E, L>) -> Seq<Seq<char>> {
    seq![NOTICE_INTRODUCTION@] + line_if(client.metrics is Some, NOTICE_METRICS@) + line_if(
        client.error_tracking is Some,
        NOTICE_ERROR_TRACKING@,
    ) + line_if(client.feature_flags is Some, NOTICE_FEATURE_FLAGS@) + seq![NOTICE_CONCLUSION@]
}

/// What is said about services that the configuration keeps from running:
/// which toggle does.
pub open spec fn run_notes<M, E, L>(client: ClientView<M, E, L>) -> Seq<Seq<char>> {
    line_if(
        client.metrics is Some && !submits_metrics(client),
        if client.config.enabled {
            NOTE_METRICS@
        } else {
            NOTE_METRICS_ALL_OFF@
        },
    ) + line_if(
        client.error_tracking is Some && !submits_errors(client),
        if client.config.enabled {
            NOTE_ERROR_TRACKING@
        } else {
            NOTE_ERROR_TRACKING_ALL_OFF@
        },
    ) + line_if(client.feature_flags is Some && !client.config.enabled, NOTE_FEATURE_FLAGS@)
}

fn push_if(lines: &mut Vec<&'static str>, condition: bool, line: &'static str)
    ensures
        line_texts(final(lines)@) == line_texts(old(lines)@) + line_if(condition, line@),
{
    if condition {
        lines.push(line);
    }
    assert(line_texts(lines@) =~= line_texts(old(lines)@) + line_if(condition, line@));
}

impl<M, E, L> Client<M, E, L> {
    /// The configuration, with the persisted server id.
    pub fn config(&self) -> (r: &Config)
        ensures
            r@ == self@.config,
    {
        &self.config
    }

    /// The project token this client was built with.
    pub fn token(&self) -> (r: &Token)
        ensures
            r@ == self@.token,
    {
        &self.token
    }

    /// The SDK information this client was built with.
    pub fn sdk_info(&self) -> (r: &SdkInfo)
        ensures
            r@ == self@.sdk_info,
    {
        &self.sdk_info
    }

    /// The metrics service, if the developer enabled it.
    pub fn metrics(&self) -> (r: Option<&M>)
        ensures
            match r {
                Some(service) => self@.metrics == Some(*service),
                None => self@.metrics is None,
            },
    {
        match &self.metrics {
            Some(service) => Some(service),
            None => None,
        }
    }

    /// The error tracking service, if the developer enabled it.
    pub fn error_tracking(&self) -> (r: Option<&E>)
        ensures
            match r {
                Some(service) => self@.error_tracking == Some(*service),
                None => self@.error_tracking is None,
            },
    {
        match &self.error_tracking {
            Some(service) => Some(service),
            None => None,
        }
    }

    /// The feature flag service, if the developer enabled it.
    pub fn feature_flags(&self) -> (r: Option<&L>)
        ensures
            match r {
                Some(service) => self@.feature_flags == Some(*service),
                None => self@.feature_flags is None,
            },
    {
        match &self.feature_flags {
            Some(service) => Some(service),
            None => None,
        }
    }

    /// Whether this is the first run of this installation, on which nothing
    /// is submitted.
    pub fn is_first_boot(&self) -> (r: bool)
        ensures
            r == self@.is_first_boot,
    {
        self.is_first_boot
    }

    /// Whether the client was started, and not shut down since.
    pub fn is_ready(&self) -> (r: bool)
        ensures
            r == self@.ready,
    {
        self.ready
    }

    /// Whether the client may submit metrics.
    pub fn may_submit_metrics(&self) -> (r: bool)
        ensures
            r == submits_metrics(self@),
    {
        self.metrics.is_some() && self.config.enabled() && self.config.submit_metrics()
            && !self.is_first_boot
    }

    /// Whether the client may submit errors.
    pub fn may_submit_errors(&self) -> (r: bool)
        ensures
            r == submits_errors(self@),
    {
        self.error_tracking.is_some() && self.config.enabled() && self.config.error_tracking()
            && !self.is_first_boot
    }

    /// Starts the client, and says which services are to be run. On the
    /// first run that is none, and there is a notice instead. Starting a
    /// second time does nothing.
    pub fn start(&mut self) -> (r: StartPlan)
        ensures
            final(self)@ == (ClientView { ready: true, ..old(self)@ }),
            match r {
                StartPlan::AlreadyStarted => old(self)@.ready,
                StartPlan::FirstBoot(lines) => !old(self)@.ready && old(self)@.is_first_boot
                    && line_texts(lines@) == notice(old(self)@),
                StartPlan::Run(plan) => {
                    &&& !old(self)@.ready
                    &&& !old(self)@.is_first_boot
                    &&& plan.metrics == submits_metrics(old(self)@)
                    &&& plan.error_tracking == submits_errors(old(self)@)
                    &&& plan.metrics_events == (submits_errors(old(self)@) && old(
                        self,
                    )@.metrics is Some)
                    &&& line_texts(plan.notes@) == run_notes(old(self)@)
                },
            },
    {
        if self.ready {
            return StartPlan::AlreadyStarted;
        }
        self.ready = true;
        if self.is_first_boot {
            return StartPlan::FirstBoot(self.first_boot_notice());
        }
        let metrics = self.may_submit_metrics();
        let error_tracking = self.may_submit_errors();
        let mut notes: Vec<&'static str> = Vec::new();
        assert(line_texts(notes@) =~= seq![]);
        let (metrics_note, error_tracking_note) = if self.config.enabled() {
            (NOTE_METRICS, NOTE_ERROR_TRACKING)
        } else {
            (NOTE_METRICS_ALL_OFF, NOTE_ERROR_TRACKING_ALL_OFF)
        };
        push_if(&mut notes, self.metrics.is_some() && !metrics, metrics_note);
        push_if(
            &mut notes,
            self.error_tracking.is_some() && !error_tracking,
            error_tracking_note,
        );
        push_if(
            &mut notes,
            self.feature_flags.is_some() && !self.config.enabled(),
            NOTE_FEATURE_FLAGS,
        );
        assert(line_texts(notes@) =~= run_notes(self@));
        StartPlan::Run(
            RunPlan {
                metrics,
                error_tracking,
                metrics_events: error_tracking && self.metrics.is_some(),
                notes,
            },
        )
    }

    /// The notice on the first run: what FastStats is, what would be sent,
    /// and how to disable each category.
    pub fn first_boot_notice(&self) -> (lines: Vec<&'static str>)
        ensures
            line_texts(lines@) == notice(self@),
    {
        let mut lines: Vec<&'static str> = Vec::new();
        assert(line_texts(lines@) =~= seq![]);
        push_if(&mut lines, true, NOTICE_INTRODUCTION);
        push_if(&mut lines, self.metrics.is_some(), NOTICE_METRICS);
        push_if(&mut lines, self.error_tracking.is_some(), NOTICE_ERROR_TRACKING);
        push_if(&mut lines, self.feature_flags.is_some(), NOTICE_FEATURE_FLAGS);
        push_if(&mut lines, true, NOTICE_CONCLUSION);
        assert(line_texts(lines@) =~= notice(self@));
        lines
    }

    /// Whether feature flags may be fetched: the developer enabled the
    /// service, and the configuration allows it.
    pub fn feature_flags_active(&self) -> (r: bool)
        ensures
            r == (self@.feature_flags is Some && self@.config.enabled),
    {
        self.feature_flags.is_some() && self.config.enabled()
    }

    /// Shuts the client down, and says what is left to be done. Nothing, if
    /// it was never started or was shut down already.
    pub fn shutdown(&mut self) -> (r: ShutdownPlan)
        ensures
            final(self)@ == (ClientView { ready: false, ..old(self)@ }),
            r == (if old(self)@.ready {
                ShutdownPlan::Stop {
                    flush_metrics: submits_metrics(old(self)@),
                    flush_errors: submits_errors(old(self)@),
                    detach: old(self)@.error_tracking is Some,
                }
            } else {
                ShutdownPlan::NotStarted
            }),
    {
        if !self.ready {
            return ShutdownPlan::NotStarted;
        }
        self.ready = false;
        ShutdownPlan::Stop {
            flush_metrics: self.may_submit_metrics(),
            flush_errors: self.may_submit_errors(),
            detach: self.error_tracking.is_some(),
        }
    }

    /// The same client with its services in another form.
    pub fn with_services<M2, E2, L2>(
        self,
        metrics: Option<M2>,
        error_tracking: Option<E2>,
        feature_flags: Option<L2>,
    ) -> (r: Client<M2, E2, L2>)
        ensures
            r@ == (ClientView {
                config: self@.config,
                token: self@.token,
                sdk_info: self@.sdk_info,
                is_first_boot: self@.is_first_boot,
                ready: self@.ready,
                metrics,
                error_tracking,
                feature_flags,
            }),
    {
        Client {
            config: self.config,
            token: self.token,
            sdk_info: self.sdk_info,
            is_first_boot: self.is_first_boot,
            ready: self.ready,
            metrics,
            error_tracking,
            feature_flags,
        }
    }

    /// Takes the services out of the client.
    pub fn take_services(&mut self) -> (r: (Option<M>, Option<E>, Option<L>))
        ensures
            r.0 == old(self)@.metrics,
            r.1 == old(self)@.error_tracking,
            r.2 == old(self)@.feature_flags,
            final(self)@ == (ClientView {
                metrics: None,
                error_tracking: None,
                feature_flags: None,
                ..old(self)@
            }),
    {
        (self.metrics.take(), self.error_tracking.take(), self.feature_flags.take())
    }
}

/// Nothing is submitted on the first run of an installation, whatever the
/// configuration says.
pub proof fn law_first_run_submits_nothing<M, E, L>(client: ClientView<M, E, L>)
    requires
        client.is_first_boot,
    ensures
        !submits_metrics(client),
        !submits_errors(client),
{
}

/// The end user's opt-out wins: what the persisted configuration or the
/// environment turns off is not submitted, whatever the developer enables.
pub proof fn law_opt_out_wins<M, E, L>(
    client: ClientView<M, E, L>,
    developer: ConfigView,
    persisted: ConfigView,
    env: EnvOverrides,
)
    requires
        client.config == client_config(
            developer,
            persisted,
            with_env(all_on(ServerId(0)), env),
        ),
    ensures
        submits_metrics(client) ==> developer.enabled && developer.submit_metrics,
        submits_metrics(client) ==> persisted.enabled && persisted.submit_metrics,
        submits_metrics(client) ==> env_toggle(opt_text(env.enabled)) != Some(false) && env_toggle(
            opt_text(env.submit_metrics),
        ) != Some(false),
        submits_errors(client) ==> developer.enabled && developer.error_tracking,
        submits_errors(client) ==> persisted.enabled && persisted.error_tracking,
        submits_errors(client) ==> env_toggle(opt_text(env.enabled)) != Some(false) && env_toggle(
            opt_text(env.error_tracking),
        ) != Some(false),
        client.config.additional_metrics ==> persisted.additional_metrics && env_toggle(
            opt_text(env.additional_metrics),
        ) != Some(false),
        client.config.enabled ==> persisted.enabled && env_toggle(opt_text(env.enabled)) != Some(
            false,
        ),
        client.config.server_id == persisted.server_id,
{
}

} // verus!
