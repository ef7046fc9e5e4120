use faststats_rs::client::state::{load_or_init, resolve_state, FirstRunGate};
use faststats_rs::client::{ServerOverrides, ShutdownPlan, StartPlan};
use faststats_rs::domain::config::EnvOverrides;
use faststats_rs::metrics::platform::PlatformInfo;
use faststats_rs::metrics::service::Skipped;
use faststats_rs::{
    Client, ClientBuilder, Config, Error, ErrorTracker, FeatureFlag, FeatureFlags, FlagValue, Id,
    JsonValue, Metric, Metrics, ServerId, Token,
};

type Compute = Box<dyn Fn() -> Result<Option<JsonValue>, Error>>;
type Flush = Box<dyn Fn()>;
type Builder = ClientBuilder<Compute, Flush>;
type Built = Client<Metrics<Compute, Flush>, ErrorTracker, FeatureFlags>;

fn no_overrides() -> EnvOverrides {
    EnvOverrides {
        enabled: None,
        submit_metrics: None,
        error_tracking: None,
        additional_metrics: None,
        debug: None,
    }
}

fn no_servers() -> ServerOverrides {
    ServerOverrides { metrics: None, error_tracking: None, feature_flags: None }
}

fn test_token() -> Token {
    Token::new(&"a".repeat(32)).expect("valid token")
}

fn builder() -> Builder {
    ClientBuilder::new("tests-project", "0.0.0", test_token(), &no_overrides())
        .expect("valid builder")
}

/// A state directory and the process that runs in it.
struct World {
    file: Option<String>,
    gate: FirstRunGate,
    force_enabled: Option<&'static str>,
}

impl World {
    fn fresh() -> Self {
        World { file: None, gate: FirstRunGate::new(), force_enabled: None }
    }

    fn build(&mut self, builder: Builder) -> Built {
        let state = load_or_init(
            builder.default_config(),
            self.file.as_deref(),
            &mut self.gate,
            self.force_enabled,
        );
        let client = builder.build(&state, &no_servers()).expect("builds");
        self.file = Some(state.persisted);
        client
    }
}

#[test]
fn first_call_in_fresh_dir_is_first_boot_and_persists() {
    let mut gate = FirstRunGate::new();
    let default_config = Config::new(ServerId::nil());
    let first = load_or_init(&default_config, None, &mut gate, None);
    assert!(first.is_first_boot);

    let second = load_or_init(&default_config, Some(&first.persisted), &mut gate, None);
    assert!(!second.is_first_boot);
    assert_eq!(second.config.server_id(), first.config.server_id());
}

#[test]
fn corrupt_state_file_is_treated_as_first_boot() {
    let mut gate = FirstRunGate::new();
    let contents = "not a config file at all, no lines parse";
    let result = load_or_init(&Config::new(ServerId::nil()), Some(contents), &mut gate, None);
    assert!(!result.is_first_boot);
    assert!(result.config.server_id() != ServerId::nil());
}

#[test]
fn first_run_gate_is_process_global_not_per_directory() {
    let mut gate = FirstRunGate::default();
    let first = load_or_init(&Config::new(ServerId::nil()), None, &mut gate, None);
    assert!(first.is_first_boot);

    let second = load_or_init(&Config::new(ServerId::nil()), None, &mut gate, None);
    assert!(!second.is_first_boot);
}

#[test]
fn force_enabled_env_overrides_first_boot_skip() {
    let mut gate = FirstRunGate::new();
    let result = load_or_init(&Config::new(ServerId::nil()), None, &mut gate, Some("true"));
    assert!(!result.is_first_boot);
    let mut gate = FirstRunGate::new();
    assert!(!load_or_init(&Config::new(ServerId::nil()), None, &mut gate, Some(" TRUE ")).is_first_boot);
    let mut gate = FirstRunGate::new();
    assert!(load_or_init(&Config::new(ServerId::nil()), None, &mut gate, Some("yes")).is_first_boot);
}

#[test]
fn config_file_is_always_written_back() {
    let mut gate = FirstRunGate::new();
    let id = ServerId::parse("00000000-0000-0000-0000-000000000009").expect("valid uuid");
    let state =
        resolve_state(&Config::new(ServerId::nil()), Some("debug=false"), id, &mut gate, None);
    assert_eq!(
        state.persisted,
        "server_id=00000000-0000-0000-0000-000000000009\nenabled=true\nsubmit_metrics=true\nerror_tracking=true\nadditional_metrics=true\ndebug=false\n"
    );
}

#[test]
fn fresh_state_dir_produces_first_boot_client() {
    let mut world = World::fresh();
    assert!(world.build(builder()).is_first_boot());
}

#[test]
fn force_enabled_env_makes_first_client_not_first_boot() {
    let mut world = World::fresh();
    world.force_enabled = Some("true");
    assert!(!world.build(builder()).is_first_boot());
}

#[test]
fn developer_config_and_persisted_file_config_are_anded_together() {
    let mut world = World::fresh();
    let disabling_config = Config::new(ServerId::nil()).set_submit_metrics(false);
    world.build(builder().config(disabling_config));

    let enabling_config = Config::new(ServerId::nil()).set_submit_metrics(true);
    let client = world.build(builder().config(enabling_config));
    assert!(!client.config().submit_metrics());
}

#[test]
fn pre_existing_state_dir_produces_non_first_boot_client() {
    let mut world = World::fresh();
    let first = world.build(builder());
    let client = world.build(builder());
    assert!(!client.is_first_boot());
    assert_eq!(client.config().server_id(), first.config().server_id());
}

#[test]
fn first_boot_start_does_not_spawn_submission_tasks() {
    let mut world = World::fresh();
    let mut client = world.build(builder());
    match client.start() {
        StartPlan::FirstBoot(lines) => {
            assert_eq!(lines.len(), 5);
            assert!(lines[0].contains("nothing is submitted yet"));
            assert!(lines[1].contains("FASTSTATS_SUBMIT_METRICS=false"));
            assert!(lines[2].contains("FASTSTATS_ERROR_TRACKING=false"));
            assert!(lines[3].contains("fetched on demand"));
            assert!(lines[4].contains("FASTSTATS_ENABLED=true"));
        }
        _ => panic!("nothing runs on the first run"),
    }
    assert!(client.is_ready());
    assert_eq!(
        client.shutdown(),
        ShutdownPlan::Stop { flush_metrics: false, flush_errors: false, detach: true }
    );
}

#[test]
fn the_notice_names_only_services_that_are_there() {
    let mut world = World::fresh();
    let mut client =
        world.build(builder().metrics(false).error_tracking(false).feature_flags(false));
    match client.start() {
        StartPlan::FirstBoot(lines) => assert_eq!(lines.len(), 2),
        _ => panic!("nothing runs on the first run"),
    }
}

#[test]
fn start_called_twice_is_idempotent() {
    let mut world = World::fresh();
    world.build(builder());
    let mut client = world.build(builder());
    assert!(!client.is_ready());
    match client.start() {
        StartPlan::Run(plan) => {
            assert!(plan.metrics);
            assert!(plan.error_tracking);
            assert!(plan.metrics_events);
            assert!(plan.notes.is_empty());
        }
        _ => panic!("services run"),
    }
    assert!(client.is_ready());
    assert!(matches!(client.start(), StartPlan::AlreadyStarted));
    assert!(client.is_ready());
    assert_eq!(
        client.shutdown(),
        ShutdownPlan::Stop { flush_metrics: true, flush_errors: true, detach: true }
    );
    assert_eq!(client.shutdown(), ShutdownPlan::NotStarted);
}

#[test]
fn shutdown_before_start_is_a_no_op() {
    let mut world = World::fresh();
    let mut client = world.build(builder());
    assert!(!client.is_ready());
    assert_eq!(client.shutdown(), ShutdownPlan::NotStarted);
    assert!(!client.is_ready());
}

#[test]
fn shutdown_on_a_never_started_client_does_not_panic() {
    let mut world = World::fresh();
    let mut client = world.build(builder());
    assert_eq!(client.shutdown(), ShutdownPlan::NotStarted);
}

#[test]
fn developer_enabled_but_config_disabled_service_stays_off() {
    let mut world = World::fresh();
    world.build(builder());
    let config = Config::new(ServerId::nil()).set_submit_metrics(false);
    let mut client = world.build(builder().config(config).metrics(true).error_tracking(false));
    match client.start() {
        StartPlan::Run(plan) => {
            assert!(!plan.metrics);
            assert!(!plan.error_tracking);
            assert_eq!(plan.notes.len(), 1);
            assert!(plan.notes[0].starts_with("Metrics service enabled by developer"));
        }
        _ => panic!("not the first run"),
    }
    assert!(client.metrics().is_some());
    assert!(!client.may_submit_metrics());
}

#[test]
fn the_master_toggle_keeps_every_service_off() {
    let mut world = World::fresh();
    world.build(builder());
    let config = Config::new(ServerId::nil()).set_enabled(false);
    let mut client = world.build(builder().config(config));
    match client.start() {
        StartPlan::Run(plan) => {
            assert!(!plan.metrics);
            assert!(!plan.error_tracking);
            assert!(!plan.metrics_events);
            assert_eq!(plan.notes.len(), 3);
            assert!(plan.notes.iter().all(|note| note.contains("disabled via Config::enabled")));
        }
        _ => panic!("not the first run"),
    }
    assert_eq!(
        client.shutdown(),
        ShutdownPlan::Stop { flush_metrics: false, flush_errors: false, detach: true }
    );
}

#[test]
fn developer_disabled_service_is_never_constructed_even_if_config_enables_it() {
    let mut world = World::fresh();
    world.build(builder());
    let config = Config::new(ServerId::nil()).set_submit_metrics(true);
    let client = world.build(builder().config(config).metrics(false));
    assert!(client.metrics().is_none());
    assert!(client.error_tracking().is_some());
}

#[test]
fn feature_flags_active_requires_both_developer_and_config_enable() {
    let mut world = World::fresh();
    world.build(builder());
    let config = Config::new(ServerId::nil()).set_enabled(false);
    let client = world.build(builder().config(config).feature_flags(true));
    assert!(client.feature_flags().is_some());
    assert!(!client.feature_flags_active());
    let mut world = World::fresh();
    assert!(world.build(builder()).feature_flags_active());
    assert!(!world.build(builder().feature_flags(false)).feature_flags_active());
}

fn platform() -> PlatformInfo {
    PlatformInfo {
        os_name: "Linux".to_string(),
        os_arch: None,
        build_arch: "x86_64".to_string(),
        os_version: "1".to_string(),
        is_32_bit: false,
        parallelism: None,
        debug_assertions: false,
    }
}

fn entry<'a>(value: &'a JsonValue, key: &str) -> Option<&'a JsonValue> {
    match value {
        JsonValue::Object(map) => map.get(key),
        _ => None,
    }
}

#[test]
fn error_tracking_context_includes_metrics_snapshot_once_wired() {
    let mut world = World::fresh();
    world.force_enabled = Some("true");
    let mut client = world.build(builder());
    let (metrics, tracker, _) = client.take_services();
    let metrics = metrics.expect("metrics enabled by default");
    let mut tracker = tracker.expect("error tracking enabled by default");
    tracker.track_error("E", Some("boom"), &vec![], None, None);

    let (snapshot, _) = metrics.snapshot(&platform(), &None);
    let data = tracker.create_data(Some(&snapshot)).expect("payload present");
    let context = entry(&data, "context").expect("context present");
    assert!(matches!(entry(context, "os_name"), Some(JsonValue::String(_))));
}

#[test]
fn failing_custom_metric_is_reported_as_tracked_error_after_start() {
    let mut world = World::fresh();
    world.force_enabled = Some("true");
    let compute: Compute = Box::new(|| Err(Error::validation("t", "computed metrics boom")));
    let failing_metric = Metric::try_new("always_fails", compute).expect("valid metric definition");
    let builder = builder()
        .metrics_factory(|f| f.add_metric(failing_metric))
        .expect("factory configured");
    let mut client = world.build(builder);
    assert!(matches!(client.start(), StartPlan::Run(plan) if plan.metrics_events));

    let (metrics, tracker, flags) = client.take_services();
    let (_, skipped) = metrics.expect("metrics enabled").snapshot(&platform(), &None);
    let mut tracker = tracker.expect("error tracking enabled");
    for skip in &skipped {
        if let Skipped::Failed(event) = skip {
            tracker.track_metrics_event(event, None);
        }
    }
    assert!(!tracker.is_empty());
    assert!(flags.is_some());
    assert!(client.metrics().is_none());
}

#[test]
fn builders_configure_every_factory() {
    let mut world = World::fresh();
    let flag = FeatureFlag::new(Id::new("new_ui").expect("valid id"), FlagValue::from(false));
    let builder = builder()
        .error_tracking_factory(|f| f.ignore_error_type("Noise".to_string()))
        .feature_flags_factory(|f| f.add_flag(flag))
        .expect("factory configured");
    let mut client = world.build(builder);
    let (_, tracker, flags) = client.take_services();
    let mut tracker = tracker.expect("error tracking enabled");
    tracker.track_error("Noise", None, &vec![], None, None);
    assert!(tracker.is_empty());
    assert!(flags.expect("flags enabled").opt_in(&Id::new("new_ui").unwrap()).is_ok());
}

#[test]
fn refused_configuration_stops_the_builder() {
    let result = builder().metrics_factory(|_| Err(Error::validation("t", "no")));
    match result {
        Err(e) => assert_eq!(e.message(), "invalid t: no"),
        Ok(_) => panic!("the factory was refused"),
    }
    assert!(builder().feature_flags_factory(|_| Err(Error::validation("t", "no"))).is_err());
}

#[test]
fn builders_name_the_sdk_and_the_project() {
    let mut world = World::fresh();
    let client = world.build(builder());
    assert_eq!(client.sdk_info().name(), "faststats-rs");
    assert_eq!(client.sdk_info().version(), "0.1.0");
    assert_eq!(
        client.sdk_info().user_agent(),
        "FastStats Rust SDK v0.1.0 (tests-project:0.0.0)"
    );
    assert_eq!(client.token().as_str(), "a".repeat(32));
}

#[test]
fn opt_out_by_environment_wins_over_the_developer() {
    let env = EnvOverrides {
        enabled: None,
        submit_metrics: Some("false".to_string()),
        error_tracking: Some("FALSE".to_string()),
        additional_metrics: None,
        debug: None,
    };
    let config = Config::new(ServerId::nil()).set_submit_metrics(true);
    let builder: Builder = ClientBuilder::new("p", "1.0", test_token(), &env)
        .expect("valid builder")
        .config(config);
    let mut world = World::fresh();
    world.force_enabled = Some("true");
    let client = world.build(builder);
    assert!(!client.config().submit_metrics());
    assert!(!client.config().error_tracking());
    assert!(client.config().additional_metrics());
    assert!(!client.may_submit_metrics());
    assert!(!client.may_submit_errors());
}

#[test]
fn environment_does_not_turn_on_what_the_developer_turns_off() {
    let env = EnvOverrides { debug: Some("true".to_string()), ..no_overrides() };
    let config = Config::new(ServerId::nil()).set_debug(false);
    let builder: Builder = ClientBuilder::new("p", "1.0", test_token(), &env)
        .expect("valid builder")
        .config(config);
    assert!(!World::fresh().build(builder).config().debug());
}

#[test]
fn environment_overrides_reach_the_client() {
    let env = EnvOverrides { debug: Some("false".to_string()), ..no_overrides() };
    let builder: Builder =
        ClientBuilder::new("p", "1", test_token(), &env).expect("valid builder");
    assert!(!builder.default_config().debug());
    let mut world = World::fresh();
    assert!(!world.build(builder).config().debug());
}

#[test]
fn servers_that_have_no_paths_are_refused() {
    let mut gate = FirstRunGate::new();
    let state = load_or_init(&Config::new(ServerId::nil()), None, &mut gate, None);
    let bad = Some("mailto:a@b.c".to_string());
    let servers = ServerOverrides {
        metrics: bad.clone(),
        error_tracking: bad.clone(),
        feature_flags: bad.clone(),
    };
    let message = |builder: Builder| match builder.build(&state, &servers) {
        Err(e) => e.message(),
        Ok(_) => String::new(),
    };
    assert!(message(builder()).starts_with("invalid server url in FASTSTATS_METRICS_SERVER: "));
    assert!(message(builder().metrics(false))
        .starts_with("invalid server url in FASTSTATS_ERROR_TRACKER_SERVER: "));
    assert!(message(builder().metrics(false).error_tracking(false))
        .starts_with("invalid server url in FASTSTATS_FLAGS_SERVER: "));
    let none = builder().metrics(false).error_tracking(false).feature_flags(false);
    assert_eq!(message(none), "");
}

#[test]
fn services_can_take_another_form() {
    let mut world = World::fresh();
    let mut client = world.build(builder().feature_flags(false));
    let (metrics, tracker, _) = client.take_services();
    let client: Client<usize, bool, ()> =
        client.with_services(metrics.map(|_| 1), tracker.map(|_| true), None);
    assert_eq!(client.metrics(), Some(&1));
    assert_eq!(client.error_tracking(), Some(&true));
    assert!(client.feature_flags().is_none());
}
