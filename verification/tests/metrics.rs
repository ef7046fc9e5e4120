use std::cell::RefCell;
use std::rc::Rc;
use std::sync::Arc;

use faststats_rs::features::terminal::{
    append_terminal_data, detected_terminal_emulator, TerminalInfo,
};
use faststats_rs::metrics::platform::{append_internal_data, cpu_count, PlatformInfo};
use faststats_rs::metrics::service::{initial_delay_from_env, merge_custom, Skipped};
use faststats_rs::transport::StatusCode;
use faststats_rs::{
    Error, JsonMap, JsonValue, Metric, Metrics, MetricsEvent, MetricsFactory, Number, SdkInfo,
    ServerId, SubmissionOutcome, Token, Transport,
};

type Compute = Box<dyn Fn() -> Result<Option<JsonValue>, Error>>;
type Flush = Box<dyn Fn()>;

fn metric(id: &str, value: JsonValue) -> Metric<Compute> {
    let compute: Compute = Box::new(move || Ok(Some(value.clone())));
    Metric::try_new(id, compute).expect("valid metric")
}

fn fallible(id: &str, compute: fn() -> Result<Option<JsonValue>, Error>) -> Metric<Compute> {
    let compute: Compute = Box::new(compute);
    Metric::try_new(id, compute).expect("valid metric")
}

fn empty() -> JsonValue {
    JsonValue::Object(JsonMap::new())
}

fn tree(text: &str) -> serde_json::Value {
    serde_json::from_str(text).expect("valid JSON")
}

fn entry<'a>(value: &'a JsonValue, key: &str) -> Option<&'a JsonValue> {
    match value {
        JsonValue::Object(map) => map.get(key),
        _ => None,
    }
}

fn text(s: &str) -> JsonValue {
    JsonValue::string(s)
}

fn platform() -> PlatformInfo {
    let info = os_info::get();
    PlatformInfo {
        os_name: info.os_type().to_string(),
        os_arch: info.architecture().map(|a| a.to_string()),
        build_arch: "unknown".to_string(),
        os_version: info.version().to_string(),
        is_32_bit: info.bitness() == os_info::Bitness::X32,
        parallelism: Some(4),
        debug_assertions: true,
    }
}

fn server_info() -> JsonValue {
    let mut info = JsonMap::new();
    info.insert("region", text("eu-west"));
    info.insert("shard_count", JsonValue::unsigned(3));
    info.insert("beta", JsonValue::Bool(false));
    JsonValue::Object(info)
}

#[test]
fn computes_scalar_value() {
    let metric = metric("core_count", JsonValue::unsigned(4));
    assert_eq!(metric.compute().unwrap(), Some(JsonValue::unsigned(4)));
}

#[test]
fn computes_nested_struct_value() {
    let metric = metric("server_info", server_info());
    let value = metric.compute().unwrap().expect("present");
    assert_eq!(entry(&value, "region"), Some(&text("eu-west")));
    assert_eq!(entry(&value, "shard_count"), Some(&JsonValue::unsigned(3)));
    assert_eq!(entry(&value, "beta"), Some(&JsonValue::Bool(false)));
}

#[test]
fn computes_arbitrarily_nested_map_value() {
    let mut inner = JsonMap::new();
    inner.insert("sub-key1", text("value2"));
    let mut outer = JsonMap::new();
    outer.insert("key1", text("value1"));
    outer.insert("key2", JsonValue::Object(inner));

    let metric = metric("nested", JsonValue::Object(outer));
    let value = metric.compute().unwrap().expect("present");
    assert_eq!(entry(&value, "key1"), Some(&text("value1")));
    assert_eq!(entry(entry(&value, "key2").unwrap(), "sub-key1"), Some(&text("value2")));
}

#[test]
fn rejects_invalid_id() {
    let compute: Compute = Box::new(|| Ok(Some(JsonValue::unsigned(1))));
    assert!(Metric::try_new("Invalid-Id", compute).is_err());
}

#[test]
fn try_new_absent_value_yields_none() {
    let metric = fallible("maybe", || Ok(None));
    assert_eq!(metric.compute().unwrap(), None);
}

#[test]
fn try_new_propagates_compute_error() {
    let metric = fallible("failing", || Err(Error::validation("tests", "boom")));
    assert!(metric.compute().is_err());
}

#[test]
fn rejects_non_finite_float() {
    let metric = metric("bad_float", JsonValue::Number(Number::Float(f64::NAN.to_bits())));
    match metric.compute() {
        Err(e) => assert_eq!(e.message(), "invalid metric value: float is NaN or infinite"),
        Ok(_) => panic!("a float that is no number must be refused"),
    }
}

#[test]
fn none_returning_serialize_value_yields_none() {
    let metric = metric("maybe_null", JsonValue::Null);
    assert_eq!(metric.compute().unwrap(), None);
    assert_eq!(metric.id().as_str(), "maybe_null");
}

#[test]
fn appends_all_expected_keys() {
    let mut metrics = JsonMap::new();
    append_internal_data(&mut metrics, &platform(), "1.0.0");
    assert!(metrics.contains_key("os_name"));
    assert!(metrics.contains_key("os_arch"));
    assert!(metrics.contains_key("os_version"));
    assert!(metrics.contains_key("pointer_width"));
    assert!(metrics.contains_key("core_count"));
    assert!(metrics.contains_key("debug_assertions"));
    assert!(metrics.contains_key("program_version"));
    assert_eq!(metrics.len(), 7);
}

#[test]
fn os_and_arch_match_env_consts() {
    let mut metrics = JsonMap::new();
    append_internal_data(&mut metrics, &platform(), "1.0.0");
    assert_eq!(metrics.get("os_name"), Some(&text(&os_info::get().os_type().to_string())));
    assert_eq!(metrics.get("os_arch"), Some(&text(os_info::get().architecture().unwrap())));
}

#[test]
fn cpu_count_is_at_least_one() {
    assert!(cpu_count(None) >= 1);
    assert_eq!(cpu_count(Some(12)), 12);
    assert_eq!(cpu_count(Some(0)), 1);
}

#[test]
fn platform_facts_are_reported() {
    let info = PlatformInfo {
        os_name: "Plan 9".to_string(),
        os_arch: None,
        build_arch: "mips".to_string(),
        os_version: "4".to_string(),
        is_32_bit: true,
        parallelism: None,
        debug_assertions: false,
    };
    let mut metrics = JsonMap::new();
    append_internal_data(&mut metrics, &info, "2.0");
    assert_eq!(metrics.get("os_name"), Some(&text("Plan 9")));
    assert_eq!(metrics.get("os_arch"), Some(&text("mips")));
    assert_eq!(metrics.get("os_version"), Some(&text("4")));
    assert_eq!(metrics.get("pointer_width"), Some(&JsonValue::unsigned(32)));
    assert_eq!(metrics.get("core_count"), Some(&JsonValue::unsigned(1)));
    assert_eq!(metrics.get("debug_assertions"), Some(&JsonValue::Bool(false)));
    assert_eq!(metrics.get("program_version"), Some(&text("2.0")));
}

fn test_transport() -> Arc<Transport> {
    let token = Token::new(&"a".repeat(32)).expect("valid token");
    let sdk_info = SdkInfo::new(
        "faststats-rs-tests",
        "0.0.0",
        "FastStats Rust SDK v0.0.0 (tests-project:0.0.0)",
    )
    .expect("valid sdk info");
    Arc::new(Transport::new(token, sdk_info))
}

fn test_server_id() -> ServerId {
    ServerId::parse("00000000-0000-0000-0000-000000000001").expect("valid literal uuid")
}

fn factory() -> MetricsFactory<Compute, Flush> {
    MetricsFactory::new("tests-project", "0.0.0")
}

fn build(factory: MetricsFactory<Compute, Flush>, additional: bool) -> Metrics<Compute, Flush> {
    factory.build(test_transport(), test_server_id(), additional, None).expect("builds")
}

#[test]
fn factory_rejects_duplicate_metric_ids() {
    let first = metric("dup", JsonValue::unsigned(1));
    let second = metric("dup", JsonValue::unsigned(2));

    let factory = factory().add_metric(first).expect("first add ok");
    match factory.add_metric(second) {
        Err(e) => assert_eq!(e.message(), "invalid metrics id: metric already added: dup"),
        Ok(_) => panic!("an id can be used once"),
    }
}

#[test]
fn builds_payload_with_internal_and_custom_metrics() {
    let factory = factory().add_metric(metric("server_info", server_info())).expect("add ok");
    let metrics = build(factory, true);

    let (data, skipped) = metrics.create_data(&platform(), &None);
    assert!(skipped.is_empty());
    assert_eq!(entry(&data, "project_name"), Some(&text("tests-project")));
    assert_eq!(entry(&data, "identifier"), Some(&text("00000000-0000-0000-0000-000000000001")));
    let inner = entry(&data, "data").expect("data present");
    assert!(matches!(entry(inner, "os_name"), Some(JsonValue::String(_))));
    assert!(matches!(entry(inner, "core_count"), Some(JsonValue::Number(_))));
    let info = entry(inner, "server_info").expect("custom metric present");
    assert_eq!(entry(info, "region"), Some(&text("eu-west")));
    assert_eq!(entry(info, "shard_count"), Some(&JsonValue::unsigned(3)));
}

#[test]
fn custom_metrics_excluded_when_additional_metrics_disabled() {
    let factory = factory()
        .add_metric(metric("should_be_excluded", JsonValue::unsigned(1)))
        .expect("add ok");
    let metrics = build(factory, false);

    let (data, _) = metrics.create_data(&platform(), &None);
    let inner = entry(&data, "data").expect("data present");
    assert!(entry(inner, "should_be_excluded").is_none());
    assert!(matches!(entry(inner, "os_name"), Some(JsonValue::String(_))));
}

#[test]
fn duplicate_id_against_internal_metric_is_skipped_not_fatal() {
    let factory = factory()
        .add_metric(metric("os", text("should-not-appear")))
        .expect("add ok")
        .add_metric(metric("os_name", text("should-not-appear")))
        .expect("add ok");
    let metrics = build(factory, true);

    let (data, skipped) = metrics.create_data(&platform(), &None);
    let inner = entry(&data, "data").expect("data present");
    assert_ne!(entry(inner, "os_name"), Some(&text("should-not-appear")));
    assert_eq!(skipped.len(), 1);
    assert!(matches!(&skipped[0], Skipped::Duplicate(id) if id == "os_name"));
}

#[test]
fn failing_custom_metric_does_not_prevent_other_data() {
    let factory = factory()
        .add_metric(fallible("failing", || Err(Error::validation("t", "boom"))))
        .expect("add ok")
        .add_metric(fallible("absent", || Ok(None)))
        .expect("add ok")
        .add_metric(metric("fine", JsonValue::unsigned(7)))
        .expect("add ok");
    let metrics = build(factory, true);

    let (data, skipped) = metrics.create_data(&platform(), &None);
    let inner = entry(&data, "data").expect("data present");
    assert!(entry(inner, "failing").is_none());
    assert!(matches!(entry(inner, "os_name"), Some(JsonValue::String(_))));
    assert_eq!(entry(inner, "fine"), Some(&JsonValue::unsigned(7)));
    assert_eq!(skipped.len(), 2);
    match &skipped[0] {
        Skipped::Failed(MetricsEvent::CustomMetricFailed { metric_id, error }) => {
            assert_eq!(metric_id, "failing");
            assert_eq!(error, "invalid t: boom");
        }
        _ => panic!("the first metric failed"),
    }
    assert!(matches!(&skipped[1], Skipped::Null(id) if id == "absent"));
}

#[test]
fn a_metric_with_a_taken_id_is_not_computed() {
    let calls = Rc::new(RefCell::new(0));
    let counter = calls.clone();
    let compute: Compute = Box::new(move || {
        *counter.borrow_mut() += 1;
        Ok(Some(JsonValue::unsigned(1)))
    });
    let colliding = Metric::try_new("core_count", compute).expect("valid metric");
    let metrics = build(factory().add_metric(colliding).expect("add ok"), true);
    let (snapshot, skipped) = metrics.snapshot(&platform(), &None);
    assert_eq!(snapshot.get("core_count"), Some(&JsonValue::unsigned(4)));
    assert_eq!(skipped.len(), 1);
    assert_eq!(*calls.borrow(), 0);
}

#[test]
fn reports_are_merged_one_by_one() {
    let mut data = JsonMap::new();
    data.insert("taken", JsonValue::unsigned(1));
    assert!(matches!(
        merge_custom(&mut data, "taken", Ok(Some(JsonValue::unsigned(2)))),
        Some(Skipped::Duplicate(_))
    ));
    assert!(merge_custom(&mut data, "free", Ok(Some(JsonValue::unsigned(3)))).is_none());
    assert!(matches!(merge_custom(&mut data, "null", Ok(None)), Some(Skipped::Null(_))));
    assert_eq!(data.get("taken"), Some(&JsonValue::unsigned(1)));
    assert_eq!(data.get("free"), Some(&JsonValue::unsigned(3)));
    assert_eq!(data.len(), 2);
}

#[test]
fn on_flush_callbacks_chain_in_registration_order() {
    let calls = Rc::new(RefCell::new(Vec::<u8>::new()));
    let calls_a = calls.clone();
    let calls_b = calls.clone();

    let first: Flush = Box::new(move || calls_a.borrow_mut().push(1));
    let second: Flush = Box::new(move || calls_b.borrow_mut().push(2));
    let metrics = build(factory().on_flush(first).on_flush(second), true);

    assert!(concluded(&metrics, &answered(200)));
    assert_eq!(*calls.borrow(), vec![1, 2]);
}

/// Runs the callbacks that are due, and says whether the submission was
/// accepted.
fn concluded(
    metrics: &Metrics<Compute, Flush>,
    outcome: &Result<SubmissionOutcome, Error>,
) -> bool {
    match metrics.due_callbacks(outcome) {
        Some(due) => {
            due.iter().for_each(|callback| callback());
            true
        }
        None => false,
    }
}

fn answered(code: u16) -> Result<SubmissionOutcome, Error> {
    Ok(SubmissionOutcome { status: StatusCode::from_u16(code).expect("three digits"), body: None })
}

#[test]
fn on_flush_callback_runs_only_on_successful_submission() {
    let calls = Rc::new(RefCell::new(0));
    let counter = calls.clone();
    let flush: Flush = Box::new(move || *counter.borrow_mut() += 1);
    let metrics = build(factory().on_flush(flush), true);

    assert!(!concluded(&metrics, &answered(500)));
    assert_eq!(*calls.borrow(), 0);
    assert!(concluded(&metrics, &answered(200)));
    assert_eq!(*calls.borrow(), 1);
}

#[test]
fn service_submit_against_unreachable_server_returns_false_not_panic_for_metrics() {
    let calls = Rc::new(RefCell::new(0));
    let counter = calls.clone();
    let flush: Flush = Box::new(move || *counter.borrow_mut() += 1);
    let metrics = build(factory().on_flush(flush), true);
    assert!(!concluded(&metrics, &Err(Error::Transport("connection refused".to_string()))));
    assert_eq!(*calls.borrow(), 0);
}

#[test]
fn metrics_e2e_failure_path_non_2xx_response_returns_false_without_panicking() {
    let metrics = build(factory(), true);
    assert!(!concluded(&metrics, &answered(500)));
}

#[test]
fn metrics_are_sent_to_the_collect_path() {
    let metrics = build(factory(), true);
    let request = metrics.request(&empty(), &tree("{}")).expect("request builds");
    assert_eq!(request.url.as_str(), "https://metrics.faststats.dev/v1/collect");
    let metrics = factory()
        .build(test_transport(), test_server_id(), true, Some("http://127.0.0.1:1"))
        .expect("builds");
    let request = metrics.request(&empty(), &tree("{}")).expect("request builds");
    assert_eq!(request.url.as_str(), "http://127.0.0.1:1/v1/collect");
    assert!(factory()
        .build(test_transport(), test_server_id(), true, Some("mailto:a@b.c"))
        .is_err());
}

#[test]
fn initial_delay_defaults_to_30_seconds_when_unset() {
    assert_eq!(initial_delay_from_env(None), 30);
}

#[test]
fn initial_delay_respects_env_override() {
    assert_eq!(initial_delay_from_env(Some("5")), 5);
}

#[test]
fn initial_delay_falls_back_on_invalid_value() {
    assert_eq!(initial_delay_from_env(Some("not-a-number")), 30);
}

#[test]
fn initial_delay_is_read_as_a_64_bit_number() {
    assert_eq!(initial_delay_from_env(Some(" +0 ")), 0);
    assert_eq!(initial_delay_from_env(Some("18446744073709551615")), u64::MAX);
    assert_eq!(initial_delay_from_env(Some("18446744073709551616")), 30);
    assert_eq!(initial_delay_from_env(Some("-1")), 30);
    assert_eq!(initial_delay_from_env(Some("+")), 30);
    assert_eq!(initial_delay_from_env(Some("")), 30);
    assert_eq!(initial_delay_from_env(Some("1 2")), 30);
}

fn some(s: &str) -> Option<String> {
    Some(s.to_string())
}

#[test]
fn detected_terminal_emulator_prefers_term_program() {
    assert_eq!(
        detected_terminal_emulator(some("iTerm.app"), some("truecolor"), some("xterm-256color")),
        Some("iTerm.app".to_string())
    );
}

#[test]
fn detected_terminal_emulator_falls_back_to_colorterm() {
    assert_eq!(
        detected_terminal_emulator(None, some("truecolor"), None),
        Some("truecolor".to_string())
    );
}

#[test]
fn detected_terminal_emulator_falls_back_to_term() {
    assert_eq!(
        detected_terminal_emulator(None, None, some("xterm-256color")),
        Some("xterm-256color".to_string())
    );
}

#[test]
fn detected_terminal_emulator_none_when_all_unset() {
    assert_eq!(detected_terminal_emulator(None, None, None), None);
}

#[test]
fn detected_terminal_emulator_none_when_blank() {
    assert_eq!(detected_terminal_emulator(some("   "), None, None), None);
}

#[test]
fn unknown_terminal_facts_are_left_out() {
    let mut metrics = JsonMap::new();
    append_terminal_data(&mut metrics, &TerminalInfo { size: None, emulator: None });
    assert!(metrics.is_empty());
    let known = TerminalInfo { size: Some((120, 40)), emulator: some("kitty") };
    append_terminal_data(&mut metrics, &known);
    assert_eq!(metrics.get("terminal_columns"), Some(&JsonValue::unsigned(120)));
    assert_eq!(metrics.get("terminal_rows"), Some(&JsonValue::unsigned(40)));
    assert_eq!(metrics.get("terminal_emulator"), Some(&text("kitty")));
}

#[test]
fn terminal_facts_are_part_of_the_snapshot() {
    let metrics = build(factory(), true);
    let terminal = Some(TerminalInfo { size: Some((80, 24)), emulator: None });
    let (snapshot, _) = metrics.snapshot(&platform(), &terminal);
    assert_eq!(snapshot.get("terminal_rows"), Some(&JsonValue::unsigned(24)));
    assert_eq!(snapshot.len(), 9);
}
