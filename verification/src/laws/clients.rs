//! Laws of clients: which services there are, which of them submit, and what
//! starting and shutting down asks for.

use vstd::prelude::*;

use crate::client::state::State;
use crate::client::{
    line_texts, Client, ClientBuilder, ClientBuilderView, ClientView, ServerOverrides, ShutdownPlan,
    StartPlan,
};
use crate::domain::config::{Config, EnvOverrides};
use crate::domain::sdk_info::SdkInfo;
use crate::domain::server_id::ServerId;
use crate::error::{Error, ErrorView};
use crate::error_tracking::service::{error_url, ErrorTracker};
use crate::feature_flags::service::{flags_urls, FeatureFlags, FlagUrls};
use crate::metrics::service::{collect_url, Metrics};
use crate::text::opt_text;
use crate::transport::{url_join, url_parse};
use crate::validated::token::Token;
use crate::value::JsonValue;

verus! {

/// Metrics may be submitted exactly if the service is there, this is not the
/// first run, and the toggles for everything and for metrics are on.
pub proof fn law_metrics_are_submitted<M, E, L>(client: &Client<M, E, L>, r: bool)
    requires
        call_ensures(Client::<M, E, L>::may_submit_metrics, (client,), r),
    ensures
        client@.metrics is None ==> !r,
        client@.is_first_boot ==> !r,
        !client@.config.enabled ==> !r,
        !client@.config.submit_metrics ==> !r,
        client@.metrics is Some && !client@.is_first_boot && client@.config.enabled
            && client@.config.submit_metrics ==> r,
{
}

/// Errors may be submitted exactly if the service is there, this is not the
/// first run, and the toggles for everything and for errors are on.
pub proof fn law_errors_are_submitted<M, E, L>(client: &Client<M, E, L>, r: bool)
    requires
        call_ensures(Client::<M, E, L>::may_submit_errors, (client,), r),
    ensures
        client@.error_tracking is None ==> !r,
        client@.is_first_boot ==> !r,
        !client@.config.enabled ==> !r,
        !client@.config.error_tracking ==> !r,
        client@.error_tracking is Some && !client@.is_first_boot && client@.config.enabled
            && client@.config.error_tracking ==> r,
{
}

/// Feature flags may be fetched exactly if the service is there and the
/// toggle for everything is on.
pub proof fn law_flags_are_active<M, E, L>(client: &Client<M, E, L>, r: bool)
    requires
        call_ensures(Client::<M, E, L>::feature_flags_active, (client,), r),
    ensures
        client@.feature_flags is None ==> !r,
        !client@.config.enabled ==> !r,
        client@.feature_flags is Some && client@.config.enabled ==> r,
{
}

/// The services are independent of each other: whether errors are submitted
/// does not depend on the toggle for metrics or on that service, nor the
/// other way round; and neither depends on other toggles, the token, or
/// whether the client was started.
pub proof fn law_opt_outs_are_independent<M, E, L>(
    a: &Client<M, E, L>,
    b: &Client<M, E, L>,
    metrics_a: bool,
    metrics_b: bool,
    errors_a: bool,
    errors_b: bool,
)
    requires
        call_ensures(Client::<M, E, L>::may_submit_metrics, (a,), metrics_a),
        call_ensures(Client::<M, E, L>::may_submit_metrics, (b,), metrics_b),
        call_ensures(Client::<M, E, L>::may_submit_errors, (a,), errors_a),
        call_ensures(Client::<M, E, L>::may_submit_errors, (b,), errors_b),
        a@.is_first_boot == b@.is_first_boot,
        a@.config.enabled == b@.config.enabled,
    ensures
        a@.config.error_tracking == b@.config.error_tracking && (a@.error_tracking is Some
            <==> b@.error_tracking is Some) ==> errors_a == errors_b,
        a@.config.submit_metrics == b@.config.submit_metrics && (a@.metrics is Some <==> b@.metrics
            is Some) ==> metrics_a == metrics_b,
{
}

/// A client that was started asks for nothing when it is started again. On
/// the first run starting asks for a notice only. Else it runs the services
/// that may submit, and the error tracker listens to the metrics service if
/// both are there and it runs.
pub proof fn law_start<M, E, L>(
    client: &mut Client<M, E, L>,
    metrics: bool,
    errors: bool,
    r: StartPlan,
)
    requires
        call_ensures(Client::<M, E, L>::may_submit_metrics, (&*client,), metrics),
        call_ensures(Client::<M, E, L>::may_submit_errors, (&*client,), errors),
        call_ensures(Client::<M, E, L>::start, (client,), r),
    ensures
        final(client)@ == (ClientView { ready: true, ..old(client)@ }),
        r is AlreadyStarted <==> old(client)@.ready,
        r is FirstBoot <==> !old(client)@.ready && old(client)@.is_first_boot,
        r is Run <==> !old(client)@.ready && !old(client)@.is_first_boot,
        r is Run ==> r->Run_0.metrics == metrics && r->Run_0.error_tracking == errors
            && r->Run_0.metrics_events == (errors && old(client)@.metrics is Some),
{
}

/// What is said about services that do not run, of each that is there: that
/// everything is off, or which toggle is.
pub proof fn law_notes<M, E, L>(client: &mut Client<M, E, L>, r: StartPlan)
    requires
        call_ensures(Client::<M, E, L>::start, (client,), r),
        r is Run,
    ensures
        ({
            let c = old(client)@;
            let notes = line_texts(r->Run_0.notes@);
            let all_off_metrics =
                "Metrics service enabled by developer but disabled via Config::enabled; not starting"@;
            let off_metrics =
                "Metrics service enabled by developer but disabled via Config::submit_metrics; not starting"@;
            let all_off_errors =
                "Error tracking service enabled by developer but disabled via Config::enabled; not starting"@;
            let off_errors =
                "Error tracking service enabled by developer but disabled via Config::error_tracking; not starting"@;
            let off_flags =
                "Feature flags service enabled by developer but disabled via Config::enabled; fetches will be skipped by callers checking Client::config()"@;
            let no_metrics = c.metrics is Some && !(c.config.enabled && c.config.submit_metrics);
            let no_errors = c.error_tracking is Some && !(c.config.enabled
                && c.config.error_tracking);
            let no_flags = c.feature_flags is Some && !c.config.enabled;
            let of_errors = if no_metrics {
                1int
            } else {
                0int
            };
            let of_flags = of_errors + if no_errors {
                1int
            } else {
                0int
            };
            &&& notes.len() == of_flags + if no_flags {
                1int
            } else {
                0int
            }
            &&& no_metrics ==> notes[0] == if c.config.enabled {
                off_metrics
            } else {
                all_off_metrics
            }
            &&& no_errors ==> notes[of_errors] == if c.config.enabled {
                off_errors
            } else {
                all_off_errors
            }
            &&& no_flags ==> notes[of_flags] == off_flags
        }),
{
}

/// The notice on the first run says so first, has a line for each service
/// that is there, and ends with how to change it.
pub proof fn law_notice<M, E, L>(client: &Client<M, E, L>, lines: Vec<&'static str>)
    requires
        call_ensures(Client::<M, E, L>::first_boot_notice, (client,), lines),
    ensures
        ({
            let c = client@;
            let notice = line_texts(lines@);
            let of_errors = 1 + if c.metrics is Some {
                1int
            } else {
                0int
            };
            let of_flags = of_errors + if c.error_tracking is Some {
                1int
            } else {
                0int
            };
            let last = of_flags + if c.feature_flags is Some {
                1int
            } else {
                0int
            };
            &&& notice.len() == last + 1
            &&& notice[0]
                == "FastStats is collecting anonymous usage data to help improve this project. This is the first run, so nothing is submitted yet, submission begins on the next run."@
            &&& c.metrics is Some ==> notice[1]
                == "  - Metrics (platform info plus any custom metrics registered by this application) will be sent every 30 minutes. Disable with FASTSTATS_SUBMIT_METRICS=false or by editing the config file."@
            &&& c.error_tracking is Some ==> notice[of_errors]
                == "  - Error reports (panics and manually tracked errors) will be sent every 30 minutes. Disable with FASTSTATS_ERROR_TRACKING=false or by editing the config file."@
            &&& c.feature_flags is Some ==> notice[of_flags]
                == "  - Feature flag values will be fetched on demand. Disable all FastStats data collection with FASTSTATS_ENABLED=false or by editing the config file."@
            &&& notice[last]
                == "  - To disable FastStats entirely, set the FASTSTATS_ENABLED=false environment variable. To start submitting immediately instead of waiting for the next run, set FASTSTATS_ENABLED=true."@
        }),
{
}

/// A client that was not started asks for nothing when it is shut down. Else
/// each service that may submit does so one last time, and the panic hook is
/// given up by the error tracker, if there is one.
pub proof fn law_shutdown<M, E, L>(
    client: &mut Client<M, E, L>,
    metrics: bool,
    errors: bool,
    r: ShutdownPlan,
)
    requires
        call_ensures(Client::<M, E, L>::may_submit_metrics, (&*client,), metrics),
        call_ensures(Client::<M, E, L>::may_submit_errors, (&*client,), errors),
        call_ensures(Client::<M, E, L>::shutdown, (client,), r),
    ensures
        final(client)@ == (ClientView { ready: false, ..old(client)@ }),
        !old(client)@.ready ==> r == ShutdownPlan::NotStarted,
        old(client)@.ready ==> r == (ShutdownPlan::Stop {
            flush_metrics: metrics,
            flush_errors: errors,
            detach: old(client)@.error_tracking is Some,
        }),
{
}

/// Starting and shutting down undo each other.
pub proof fn law_start_then_shutdown<M, E, L>(
    client: &mut Client<M, E, L>,
    again: &mut Client<M, E, L>,
    ended: &mut Client<M, E, L>,
    first: StartPlan,
    second: StartPlan,
    end: ShutdownPlan,
    ready: bool,
)
    requires
        !old(client)@.ready,
        call_ensures(Client::<M, E, L>::start, (client,), first),
        *again == *final(client),
        call_ensures(Client::<M, E, L>::start, (again,), second),
        *ended == *final(again),
        call_ensures(Client::<M, E, L>::shutdown, (ended,), end),
        call_ensures(Client::<M, E, L>::is_ready, (&*final(client),), ready),
    ensures
        !(first is AlreadyStarted),
        second is AlreadyStarted,
        ready,
        end is Stop,
        final(ended)@ == old(client)@,
{
}

/// A client tells what it was built with.
pub proof fn law_client_getters<M, E, L>(
    client: &Client<M, E, L>,
    config: &Config,
    token: &Token,
    sdk_info: &SdkInfo,
    metrics: Option<&M>,
    errors: Option<&E>,
    flags: Option<&L>,
    first: bool,
    ready: bool,
)
    requires
        call_ensures(Client::<M, E, L>::config, (client,), config),
        call_ensures(Client::<M, E, L>::token, (client,), token),
        call_ensures(Client::<M, E, L>::sdk_info, (client,), sdk_info),
        call_ensures(Client::<M, E, L>::metrics, (client,), metrics),
        call_ensures(Client::<M, E, L>::error_tracking, (client,), errors),
        call_ensures(Client::<M, E, L>::feature_flags, (client,), flags),
        call_ensures(Client::<M, E, L>::is_first_boot, (client,), first),
        call_ensures(Client::<M, E, L>::is_ready, (client,), ready),
    ensures
        config@ == client@.config,
        token@ == client@.token,
        sdk_info@ == client@.sdk_info,
        metrics is Some <==> client@.metrics is Some,
        metrics is Some ==> *metrics->0 == client@.metrics->0,
        errors is Some <==> client@.error_tracking is Some,
        errors is Some ==> *errors->0 == client@.error_tracking->0,
        flags is Some <==> client@.feature_flags is Some,
        flags is Some ==> *flags->0 == client@.feature_flags->0,
        first == client@.is_first_boot,
        ready == client@.ready,
{
}

/// A new builder has every service enabled, nothing registered, the
/// configuration of the environment, and names this SDK and the project.
pub proof fn law_new_builder<F: Fn() -> Result<Option<JsonValue>, Error>, G: Fn()>(
    name: &str,
    version: &str,
    token: Token,
    env: &EnvOverrides,
    of_env: Config,
    r: Result<ClientBuilder<F, G>, Error>,
)
    requires
        call_ensures(ClientBuilder::<F, G>::new, (name, version, token, env), r),
        call_ensures(Config::from_env, (ServerId(0), env), of_env),
    ensures
        r is Ok,
        ({
            let b = r->Ok_0@;
            &&& b.config == of_env@
            &&& b.environment == of_env@
            &&& b.token == token@
            &&& b.sdk_info.name == "faststats-rs"@
            &&& b.sdk_info.version == "0.1.0"@
            &&& b.sdk_info.user_agent == "FastStats Rust SDK v"@ + "0.1.0"@ + " ("@ + name@ + ":"@
                + version@ + ")"@
            &&& b.metrics@.project_name == name@
            &&& b.metrics@.project_version == b.sdk_info.version
            &&& b.metrics@.metrics.len() == 0 && b.metrics@.flush.len() == 0
            &&& b.error_tracking@.project_name == name@
            &&& b.error_tracking@.sdk_info == b.sdk_info
            &&& b.error_tracking@.rules.len() == 0 && b.error_tracking@.patterns.len() == 0
                && b.error_tracking@.attributes is None
            &&& b.feature_flags@.flags.len() == 0 && b.feature_flags@.attributes is None
                && b.feature_flags@.ttl == 300_000_000_000
            &&& b.metrics_enabled && b.error_tracking_enabled && b.feature_flags_enabled
        }),
{
}

/// A builder for another SDK differs from a new one only in what names the
/// SDK.
pub proof fn law_builder_of_another_sdk<F: Fn() -> Result<Option<JsonValue>, Error>, G: Fn()>(
    name: &str,
    version: &str,
    token: Token,
    sdk_info: SdkInfo,
    env: &EnvOverrides,
    r: ClientBuilder<F, G>,
    plain: Result<ClientBuilder<F, G>, Error>,
)
    requires
        call_ensures(ClientBuilder::<F, G>::new_with_sdk_info, (name, token, sdk_info, env), r),
        call_ensures(ClientBuilder::<F, G>::new, (name, version, token, env), plain),
    ensures
        plain is Ok,
        r@.sdk_info == sdk_info@,
        r@.error_tracking@.sdk_info == sdk_info@,
        r@.metrics@.project_version == sdk_info@.version,
        r@.metrics@.project_name == name@,
        r@.error_tracking@.project_name == name@,
        r@.metrics@.metrics.len() == 0 && r@.metrics@.flush.len() == 0,
        r@.error_tracking@.rules.len() == 0 && r@.error_tracking@.patterns.len() == 0,
        r@.feature_flags@.flags.len() == 0,
        r@.token == token@,
        r@.config == plain->Ok_0@.config,
        r@.environment == plain->Ok_0@.environment,
        r@.metrics_enabled && r@.error_tracking_enabled && r@.feature_flags_enabled,
{
}

/// What configures a service is handed the factory of that service, and
/// nothing else changes; where it fails, so does the builder.
pub proof fn law_builder_factories<
    F: Fn() -> Result<Option<JsonValue>, Error>,
    G: Fn(),
    A: FnOnce(crate::metrics::service::Factory<F, G>) -> Result<
        crate::metrics::service::Factory<F, G>,
        Error,
    >,
    B: FnOnce(crate::error_tracking::service::Factory) -> crate::error_tracking::service::Factory,
    C: FnOnce(crate::feature_flags::service::Factory) -> Result<
        crate::feature_flags::service::Factory,
        Error,
    >,
>(
    builder: ClientBuilder<F, G>,
    of_metrics: A,
    of_errors: B,
    of_flags: C,
    a: Result<ClientBuilder<F, G>, Error>,
    b: ClientBuilder<F, G>,
    c: Result<ClientBuilder<F, G>, Error>,
)
    requires
        call_ensures(ClientBuilder::<F, G>::metrics_factory::<A>, (builder, of_metrics), a),
        call_ensures(ClientBuilder::<F, G>::error_tracking_factory::<B>, (builder, of_errors), b),
        call_ensures(ClientBuilder::<F, G>::feature_flags_factory::<C>, (builder, of_flags), c),
    ensures
        a is Ok ==> of_metrics.ensures((builder@.metrics,), Ok(a->Ok_0@.metrics)) && a->Ok_0@ == (
        ClientBuilderView { metrics: a->Ok_0@.metrics, ..builder@ }),
        a is Err ==> of_metrics.ensures((builder@.metrics,), Err(a->Err_0)),
        of_errors.ensures((builder@.error_tracking,), b@.error_tracking) && b@ == (
        ClientBuilderView { error_tracking: b@.error_tracking, ..builder@ }),
        c is Ok ==> of_flags.ensures((builder@.feature_flags,), Ok(c->Ok_0@.feature_flags))
            && c->Ok_0@ == (ClientBuilderView {
            feature_flags: c->Ok_0@.feature_flags,
            ..builder@
        }),
        c is Err ==> of_flags.ensures((builder@.feature_flags,), Err(c->Err_0)),
{
}

/// Each setter of a builder sets its own part, and no other; the
/// environment stays what it is.
pub proof fn law_builder_setters<F: Fn() -> Result<Option<JsonValue>, Error>, G: Fn()>(
    builder: ClientBuilder<F, G>,
    config: Config,
    enabled: bool,
    a: ClientBuilder<F, G>,
    b: ClientBuilder<F, G>,
    c: ClientBuilder<F, G>,
    d: ClientBuilder<F, G>,
    held: &Config,
)
    requires
        call_ensures(ClientBuilder::<F, G>::config, (builder, config), a),
        call_ensures(ClientBuilder::<F, G>::metrics, (builder, enabled), b),
        call_ensures(ClientBuilder::<F, G>::error_tracking, (builder, enabled), c),
        call_ensures(ClientBuilder::<F, G>::feature_flags, (builder, enabled), d),
        call_ensures(ClientBuilder::<F, G>::default_config, (&builder,), held),
    ensures
        a@ == (ClientBuilderView { config: config@, ..builder@ }),
        b@ == (ClientBuilderView { metrics_enabled: enabled, ..builder@ }),
        c@ == (ClientBuilderView { error_tracking_enabled: enabled, ..builder@ }),
        d@ == (ClientBuilderView { feature_flags_enabled: enabled, ..builder@ }),
        held@ == builder@.config,
{
}

/// A built client has exactly the services that are enabled, was not started,
/// and has a toggle on exactly if the developer, what is persisted and the
/// environment all have it on; its server id is the persisted one.
pub proof fn law_built_client<F: Fn() -> Result<Option<JsonValue>, Error>, G: Fn()>(
    builder: ClientBuilder<F, G>,
    state: &State,
    servers: &ServerOverrides,
    r: Result<Client<Metrics<F, G>, ErrorTracker, FeatureFlags>, Error>,
)
    requires
        call_ensures(ClientBuilder::<F, G>::build, (builder, state, servers), r),
        r is Ok,
    ensures
        ({
            let b = builder@;
            let c = r->Ok_0@;
            let persisted = state.config@;
            let env = b.environment;
            &&& c.config.server_id == persisted.server_id
            &&& c.config.enabled <==> b.config.enabled && persisted.enabled && env.enabled
            &&& c.config.submit_metrics <==> b.config.submit_metrics && persisted.submit_metrics
                && env.submit_metrics
            &&& c.config.error_tracking <==> b.config.error_tracking && persisted.error_tracking
                && env.error_tracking
            &&& c.config.additional_metrics <==> b.config.additional_metrics
                && persisted.additional_metrics && env.additional_metrics
            &&& c.config.debug <==> b.config.debug && persisted.debug && env.debug
            &&& c.token == b.token
            &&& c.sdk_info == b.sdk_info
            &&& c.is_first_boot == state.is_first_boot
            &&& !c.ready
            &&& c.metrics is Some <==> b.metrics_enabled
            &&& c.error_tracking is Some <==> b.error_tracking_enabled
            &&& c.feature_flags is Some <==> b.feature_flags_enabled
        }),
{
}

/// The services of a built client belong to it: they have its server id and
/// what was registered with their factories.
pub proof fn law_built_services<F: Fn() -> Result<Option<JsonValue>, Error>, G: Fn()>(
    builder: ClientBuilder<F, G>,
    state: &State,
    servers: &ServerOverrides,
    r: Result<Client<Metrics<F, G>, ErrorTracker, FeatureFlags>, Error>,
)
    requires
        call_ensures(ClientBuilder::<F, G>::build, (builder, state, servers), r),
        r is Ok,
    ensures
        ({
            let b = builder@;
            let c = r->Ok_0@;
            &&& c.metrics is Some ==> {
                let m = c.metrics->0@;
                &&& collect_url(opt_text(servers.metrics)) == Ok::<Seq<char>, ErrorView>(m.url)
                &&& m.server_id == c.config.server_id
                &&& m.project_name == b.metrics@.project_name
                &&& m.project_version == b.metrics@.project_version
                &&& m.flush == b.metrics@.flush
                &&& c.config.additional_metrics ==> m.metrics == b.metrics@.metrics
                &&& !c.config.additional_metrics ==> m.metrics.len() == 0
                &&& m.transport.token == b.token
                &&& m.transport.sdk_info == b.sdk_info
            }
            &&& c.error_tracking is Some ==> {
                let e = c.error_tracking->0@;
                &&& error_url(opt_text(servers.error_tracking)) == Ok::<Seq<char>, ErrorView>(e.url)
                &&& !e.panic_hook_installed
                &&& e.server_id == c.config.server_id
                &&& e.project_name == b.error_tracking@.project_name
                &&& e.sdk_info == b.error_tracking@.sdk_info
                &&& e.rules == b.error_tracking@.rules
                &&& e.patterns == b.error_tracking@.patterns
                &&& e.attributes == b.error_tracking@.attributes
                &&& e.pending.len() == 0
                &&& e.transport.token == b.token
                &&& e.transport.sdk_info == b.sdk_info
            }
            &&& c.feature_flags is Some ==> {
                let f = c.feature_flags->0@;
                &&& flags_urls(opt_text(servers.feature_flags)) == Ok::<FlagUrls, ErrorView>(f.urls)
                &&& f.server_id == c.config.server_id
                &&& f.attributes == b.feature_flags@.attributes
                &&& f.ttl == b.feature_flags@.ttl
                &&& f.entries == crate::feature_flags::service::fresh_entries(
                    b.feature_flags@.flags,
                )
                &&& f.transport.token == b.token
                &&& f.transport.sdk_info == b.sdk_info
            }
        }),
{
}

/// A client is built exactly if the address of every service that is enabled
/// is one; a service that is not enabled needs none. The first that is none
/// is the error.
pub proof fn law_build_succeeds<F: Fn() -> Result<Option<JsonValue>, Error>, G: Fn()>(
    builder: ClientBuilder<F, G>,
    state: &State,
    servers: &ServerOverrides,
    r: Result<Client<Metrics<F, G>, ErrorTracker, FeatureFlags>, Error>,
)
    requires
        call_ensures(ClientBuilder::<F, G>::build, (builder, state, servers), r),
    ensures
        ({
            let metrics = collect_url(opt_text(servers.metrics));
            let errors = error_url(opt_text(servers.error_tracking));
            let flags = flags_urls(opt_text(servers.feature_flags));
            let metrics_fail = builder@.metrics_enabled && metrics is Err;
            let errors_fail = builder@.error_tracking_enabled && errors is Err;
            let flags_fail = builder@.feature_flags_enabled && flags is Err;
            &&& r is Err <==> metrics_fail || errors_fail || flags_fail
            &&& metrics_fail ==> r->Err_0@ == metrics->Err_0
            &&& !metrics_fail && errors_fail ==> r->Err_0@ == errors->Err_0
            &&& !metrics_fail && !errors_fail && flags_fail ==> r->Err_0@ == flags->Err_0
        }),
{
}

/// Each service has its own server and paths: the one that the environment
/// names, if that is an address, else the default one.
pub proof fn law_service_addresses(server: Seq<char>)
    requires
        url_parse(server) is Ok,
    ensures
        ({
            let base = url_parse(server)->Ok_0;
            let collect = url_join(base, "/v1/collect"@);
            let error = url_join(base, "/v1/error"@);
            let check = url_join(base, "/v1/check"@);
            let opt_in = url_join(base, "/v1/opt-in"@);
            let opt_out = url_join(base, "/v1/opt-out"@);
            &&& collect is Ok ==> collect_url(Some(server)) == Ok::<Seq<char>, ErrorView>(
                collect->Ok_0,
            )
            &&& collect is Err ==> collect_url(Some(server)) == Err::<Seq<char>, ErrorView>(
                ErrorView::InvalidServerUrl {
                    env_var: "FASTSTATS_METRICS_SERVER"@,
                    reason: collect->Err_0,
                },
            )
            &&& error is Ok ==> error_url(Some(server)) == Ok::<Seq<char>, ErrorView>(error->Ok_0)
            &&& error is Err ==> error_url(Some(server)) == Err::<Seq<char>, ErrorView>(
                ErrorView::InvalidServerUrl {
                    env_var: "FASTSTATS_ERROR_TRACKER_SERVER"@,
                    reason: error->Err_0,
                },
            )
            &&& flags_urls(Some(server)) is Ok <==> check is Ok && opt_in is Ok && opt_out is Ok
            &&& flags_urls(Some(server)) is Ok ==> flags_urls(Some(server))->Ok_0.check
                == check->Ok_0 && flags_urls(Some(server))->Ok_0.opt_in == opt_in->Ok_0
                && flags_urls(Some(server))->Ok_0.opt_out == opt_out->Ok_0
        }),
        collect_url(None) == crate::transport::joined_url(
            "FASTSTATS_METRICS_SERVER"@,
            url_parse("https://metrics.faststats.dev"@)->Ok_0,
            "/v1/collect"@,
        ) || url_parse("https://metrics.faststats.dev"@) is Err,
        error_url(None) == crate::transport::joined_url(
            "FASTSTATS_ERROR_TRACKER_SERVER"@,
            url_parse("https://metrics.faststats.dev"@)->Ok_0,
            "/v1/error"@,
        ) || url_parse("https://metrics.faststats.dev"@) is Err,
        flags_urls(None) == flags_urls(Some("https://flags.faststats.dev"@)) || url_parse(
            "https://flags.faststats.dev"@,
        ) is Err,
{
}

/// Taking the services out of a client, and giving it others, changes
/// nothing else.
pub proof fn law_services<M, E, L, M2, E2, L2>(
    client: &mut Client<M, E, L>,
    whole: Client<M, E, L>,
    taken: (Option<M>, Option<E>, Option<L>),
    metrics: Option<M2>,
    errors: Option<E2>,
    flags: Option<L2>,
    r: Client<M2, E2, L2>,
)
    requires
        call_ensures(Client::<M, E, L>::take_services, (client,), taken),
        call_ensures(
            Client::<M, E, L>::with_services::<M2, E2, L2>,
            (whole, metrics, errors, flags),
            r,
        ),
    ensures
        taken.0 == old(client)@.metrics,
        taken.1 == old(client)@.error_tracking,
        taken.2 == old(client)@.feature_flags,
        final(client)@.metrics is None && final(client)@.error_tracking is None && final(
            client)@.feature_flags is None,
        final(client)@.config == old(client)@.config && final(client)@.ready == old(client)@.ready
            && final(client)@.is_first_boot == old(client)@.is_first_boot && final(
            client)@.token == old(client)@.token && final(client)@.sdk_info == old(
            client)@.sdk_info,
        r@.metrics == metrics && r@.error_tracking == errors && r@.feature_flags == flags,
        r@.config == whole@.config && r@.ready == whole@.ready && r@.is_first_boot
            == whole@.is_first_boot && r@.token == whole@.token && r@.sdk_info == whole@.sdk_info,
{
}

} // verus!
