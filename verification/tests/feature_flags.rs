use std::sync::Arc;

use faststats_rs::feature_flags::cache::CachedValue;
use faststats_rs::feature_flags::service::{
    check_targeting, clone_result, read_response, Endpoint, Readiness, Role, DEFAULT_TTL,
};
use faststats_rs::transport::StatusCode;
use faststats_rs::{
    Attributes, Error, FeatureFlag, FeatureFlags, FeatureFlagsFactory, FlagValue, Id, JsonMap,
    JsonValue, Number, SdkInfo, ServerId, SubmissionOutcome, Token, Transport,
};

const SECOND: u128 = 1_000_000_000;

fn text(s: &str) -> JsonValue {
    JsonValue::string(s)
}

fn number(x: f64) -> FlagValue {
    FlagValue::Number(x.to_bits())
}

fn entry<'a>(value: &'a JsonValue, key: &str) -> Option<&'a JsonValue> {
    match value {
        JsonValue::Object(map) => map.get(key),
        _ => None,
    }
}

fn test_id(s: &str) -> Id {
    Id::new(s).expect("valid id")
}

fn test_transport() -> Arc<Transport> {
    let token = Token::new(&"a".repeat(32)).expect("valid token");
    let sdk_info = SdkInfo::new(
        "faststats-rs-tests",
        "0.0.0",
        "FastStats Rust SDK v0.0.0 (tests-project:0.0.0)",
    )
    .expect("valid sdk info");
    Arc::new(Transport::new(token, sdk_info))
}

fn test_server_id() -> ServerId {
    ServerId::parse("00000000-0000-0000-0000-000000000003").expect("valid literal uuid")
}

fn build(factory: FeatureFlagsFactory) -> FeatureFlags {
    factory.build(test_transport(), test_server_id(), None).expect("builds")
}

fn with_flag(id: &str, default: FlagValue) -> FeatureFlags {
    let flag = FeatureFlag::new(test_id(id), default);
    build(FeatureFlagsFactory::new().add_flag(flag).expect("add ok"))
}

fn answered(code: u16, body: Option<&str>) -> SubmissionOutcome {
    SubmissionOutcome {
        status: StatusCode::from_u16(code).expect("three digits"),
        body: body.map(|s| s.to_string()),
    }
}

fn unreachable() -> Result<SubmissionOutcome, Error> {
    Err(Error::Transport("connection refused".to_string()))
}

#[test]
fn string_round_trips_through_json() {
    let value = FlagValue::from("hello");
    let json = value.to_json();
    assert_eq!(json, JsonValue::String("hello".to_string()));
    assert_eq!(value.parse_matching(&json), Some(FlagValue::String("hello".to_string())));
}

#[test]
fn number_round_trips_through_json() {
    let value = number(3.5_f64);
    let json = value.to_json();
    assert_eq!(value.parse_matching(&json), Some(number(3.5)));
}

#[test]
fn boolean_round_trips_through_json() {
    let value = FlagValue::from(true);
    let json = value.to_json();
    assert_eq!(json, JsonValue::Bool(true));
    assert_eq!(value.parse_matching(&json), Some(FlagValue::Boolean(true)));
}

#[test]
fn parse_matching_rejects_mismatched_type() {
    let string_flag = FlagValue::from("default");
    let number_json = JsonValue::unsigned(42);
    assert_eq!(string_flag.parse_matching(&number_json), None);

    let number_flag = number(1.0_f64);
    let string_json = text("not a number");
    assert_eq!(number_flag.parse_matching(&string_json), None);

    let bool_flag = FlagValue::from(false);
    let string_json = text("not a bool");
    assert_eq!(bool_flag.parse_matching(&string_json), None);
}

#[test]
fn number_parse_matching_accepts_numeric_string() {
    let number_flag = number(1.0_f64);
    assert_eq!(number_flag.parse_matching(&text("12.5")), Some(number(12.5)));
}

#[test]
fn boolean_parse_matching_accepts_true_false_strings() {
    let bool_flag = FlagValue::from(false);
    assert_eq!(bool_flag.parse_matching(&text("true")), Some(FlagValue::Boolean(true)));
    assert_eq!(bool_flag.parse_matching(&text("false")), Some(FlagValue::Boolean(false)));
    assert_eq!(bool_flag.parse_matching(&text("yes")), None);
}

#[test]
fn accessors_return_none_for_wrong_variant() {
    let value = FlagValue::from("s");
    assert_eq!(value.as_number_bits(), None);
    assert_eq!(value.as_bool(), None);
    assert_eq!(value.as_str(), Some("s"));
}

#[test]
fn accessors_return_the_value() {
    assert_eq!(number(2.5).as_number_bits(), Some(2.5_f64.to_bits()));
    assert_eq!(number(2.5).as_str(), None);
    assert_eq!(FlagValue::from(true).as_bool(), Some(true));
    assert_eq!(FlagValue::from(String::from("x")), FlagValue::from("x"));
}

#[test]
fn integers_become_the_nearest_float() {
    let flag = number(0.0);
    assert_eq!(flag.parse_matching(&JsonValue::unsigned(7)), Some(number(7.0)));
    assert_eq!(flag.parse_matching(&JsonValue::signed(-3)), Some(number(-3.0)));
    assert_eq!(
        flag.parse_matching(&JsonValue::unsigned(u64::MAX)),
        Some(number(18446744073709551616.0))
    );
    assert_eq!(flag.parse_matching(&JsonValue::signed(i64::MIN)), Some(number(-9223372036854775808.0)));
    assert_eq!(flag.parse_matching(&JsonValue::unsigned(9007199254740993)), Some(number(9007199254740992.0)));
}

#[test]
fn texts_are_read_as_floats() {
    let flag = number(0.0);
    assert_eq!(flag.parse_matching(&text("  -1e3 ")), Some(number(-1000.0)));
    assert_eq!(flag.parse_matching(&text("inf")), Some(number(f64::INFINITY)));
    assert_eq!(flag.parse_matching(&text("1e999")), Some(number(f64::INFINITY)));
    match flag.parse_matching(&text("nan")) {
        Some(FlagValue::Number(bits)) => assert!(f64::from_bits(bits).is_nan()),
        _ => panic!("nan is a float"),
    }
    assert_eq!(flag.parse_matching(&text("")), None);
    assert_eq!(flag.parse_matching(&JsonValue::Null), None);
}

#[test]
fn numbers_that_are_not_finite_become_null() {
    assert_eq!(number(f64::INFINITY).to_json(), JsonValue::Null);
    assert_eq!(number(f64::NAN).to_json(), JsonValue::Null);
    assert_eq!(number(1.5).to_json(), JsonValue::Number(Number::Float(1.5_f64.to_bits())));
}

#[test]
fn flag_values_compare_as_floats_do() {
    assert!(number(0.0) == number(-0.0));
    assert!(number(f64::NAN) != number(f64::NAN));
    assert!(number(1.0) != number(2.0));
    assert!(number(f64::INFINITY) == number(f64::INFINITY));
    assert!(number(1.0) != FlagValue::from(true));
}

#[test]
fn fresh_value_is_valid() {
    let cached = CachedValue::new(FlagValue::from("v"), 5 * SECOND);
    assert!(cached.is_valid(5 * SECOND, 60 * SECOND));
}

#[test]
fn zero_ttl_is_immediately_invalid() {
    let cached = CachedValue::new(FlagValue::from("v"), 5 * SECOND);
    assert!(!cached.is_valid(5 * SECOND, 0));
}

#[test]
fn values_expire_when_their_time_is_over() {
    let cached = CachedValue::new(FlagValue::from("v"), 5 * SECOND);
    assert!(cached.is_valid(65 * SECOND - 1, 60 * SECOND));
    assert!(!cached.is_valid(65 * SECOND, 60 * SECOND));
    assert!(cached.is_valid(0, 60 * SECOND));
    assert_eq!(cached.get(), FlagValue::from("v"));
    assert!(!cached.clone().is_valid(65 * SECOND, 60 * SECOND));
}

#[test]
fn new_flag_stores_id_and_default() {
    let flag = FeatureFlag::new(test_id("test_flag"), FlagValue::from("default-value"));
    assert_eq!(flag.id(), &test_id("test_flag"));
    assert_eq!(flag.default(), &FlagValue::from("default-value"));
}

#[test]
fn attributes_builder_sets_per_flag_attributes() {
    let mut attrs = Attributes::empty();
    attrs.put("cohort", text("beta")).expect("valid attribute");
    let flag = FeatureFlag::new(test_id("test_flag"), number(1.0_f64)).attributes(attrs);
    assert!(flag.attributes_ref().is_some());
    assert_eq!(
        flag.attributes_ref().unwrap().get("cohort"),
        Some(&JsonValue::String("beta".to_string()))
    );
    assert!(flag.clone().attributes_ref().is_some());
}

#[test]
fn flag_with_no_attributes_returns_none() {
    let flag = FeatureFlag::new(test_id("test_flag"), FlagValue::from(true));
    assert!(flag.attributes_ref().is_none());
}

#[test]
fn factory_rejects_duplicate_flag_ids() {
    let first = FeatureFlag::new(test_id("dup"), FlagValue::from("a"));
    let second = FeatureFlag::new(test_id("dup"), FlagValue::from("b"));

    let factory = FeatureFlagsFactory::new().add_flag(first).expect("first add ok");
    match factory.add_flag(second) {
        Err(e) => assert_eq!(e.message(), "invalid feature flag id: flag already added: dup"),
        Ok(_) => panic!("an id can be used once"),
    }
}

#[test]
fn factory_defaults_to_five_minute_ttl() {
    let flags = build(FeatureFlagsFactory::new());
    assert_eq!(flags.ttl(), 5 * 60 * SECOND);
    assert_eq!(DEFAULT_TTL, 300 * SECOND);
    assert_eq!(build(FeatureFlagsFactory::default().ttl(7)).ttl(), 7);
}

#[test]
fn when_ready_errors_for_unknown_flag() {
    let flags = build(FeatureFlagsFactory::new());
    match flags.when_ready(&test_id("nonexistent"), 0) {
        Err(e) => assert_eq!(
            e.message(),
            "invalid feature flag id: no flag registered for id: nonexistent"
        ),
        Ok(_) => panic!("no such flag"),
    }
}

#[test]
fn when_ready_returns_cached_value_without_network_when_valid() {
    let id = test_id("cached_flag");
    let mut flags = with_flag("cached_flag", FlagValue::from("default-val"));
    flags.store(&id, &Ok(FlagValue::from("cached-val")), SECOND);
    match flags.when_ready(&id, 2 * SECOND).expect("cached value returned") {
        Readiness::Ready(value) => assert_eq!(value, FlagValue::from("cached-val")),
        Readiness::Fetch => panic!("the value is still valid"),
    }
}

#[test]
fn when_ready_propagates_fetch_failure_rather_than_falling_back() {
    let id = test_id("unreachable_flag");
    let flags = with_flag("unreachable_flag", FlagValue::from("default-val"));
    assert!(matches!(flags.when_ready(&id, 0), Ok(Readiness::Fetch)));
    assert!(flags.read_check(&id, unreachable()).is_err());
}

#[test]
fn fetch_against_unreachable_server_returns_err_not_panic() {
    let id = test_id("some_flag");
    let flags = with_flag("some_flag", FlagValue::from(true));
    match flags.read_check(&id, unreachable()) {
        Err(e) => assert_eq!(e.message(), "transport error: connection refused"),
        Ok(_) => panic!("the server was not reached"),
    }
}

#[test]
fn fetch_unknown_flag_id_returns_err() {
    let mut flags = build(FeatureFlagsFactory::new());
    assert!(flags.fetch(&test_id("nonexistent")).is_err());
    assert!(flags.read_check(&test_id("nonexistent"), unreachable()).is_err());
}

#[test]
fn opt_in_unknown_flag_returns_err() {
    let flags = build(FeatureFlagsFactory::new());
    assert!(flags.opt_in(&test_id("nonexistent")).is_err());
    assert!(flags.opt_out(&test_id("nonexistent")).is_err());
}

#[test]
fn opt_in_against_unreachable_server_does_not_touch_cache() {
    let id = test_id("opt_flag");
    let mut flags = with_flag("opt_flag", FlagValue::from("default-val"));
    flags.store(&id, &Ok(FlagValue::from("stale-val")), 0);
    flags.store(&id, &Err(Error::Transport("connection refused".to_string())), 5);
    assert_eq!(flags.cached(&id, 10), Some(FlagValue::from("stale-val")));
}

#[test]
fn opt_in_posts_then_fetches_and_updates_cache() {
    let id = test_id("beta_feature");
    let mut flags = with_flag("beta_feature", FlagValue::from(false));
    let (endpoint, body) = flags.opt_in(&id).expect("known flag");
    assert_eq!(endpoint, Endpoint::OptIn);
    assert_eq!(entry(&body, "key"), Some(&text("beta_feature")));
    assert!(check_targeting(&answered(200, None)).is_ok());
    assert!(matches!(flags.fetch(&id), Ok(Role::Leader(_))));
    let outcome = flags.read_check(&id, Ok(answered(200, Some("{\"value\": true}"))));
    let shared = flags.complete_fetch(&id, &outcome, 1);
    assert_eq!(shared.expect("opt-in succeeds"), FlagValue::from(true));
    assert_eq!(flags.cached(&id, 2), Some(FlagValue::from(true)));
}

#[test]
fn opt_out_posts_then_fetches_and_updates_cache() {
    let id = test_id("beta_feature_two");
    let mut flags = with_flag("beta_feature_two", FlagValue::from(true));
    let (endpoint, _) = flags.opt_out(&id).expect("known flag");
    assert_eq!(endpoint, Endpoint::OptOut);
    assert!(matches!(flags.fetch(&id), Ok(Role::Leader(_))));
    let outcome = flags.read_check(&id, Ok(answered(200, Some("{\"value\": false}"))));
    let shared = flags.complete_fetch(&id, &outcome, 1);
    assert_eq!(shared.expect("opt-out succeeds"), FlagValue::from(false));
}

#[test]
fn opt_requests_are_checked() {
    assert!(check_targeting(&answered(200, None)).is_ok());
    match check_targeting(&answered(403, Some("no"))) {
        Err(e) => assert_eq!(
            e.message(),
            "invalid feature flag opt request: opt request failed with status 403 Forbidden (no)"
        ),
        Ok(_) => panic!("the request was refused"),
    }
}

#[test]
fn build_request_merges_service_and_per_flag_attributes() {
    let mut service_attrs = Attributes::empty();
    service_attrs.put("env", text("prod")).expect("valid attribute");
    service_attrs.put("shared", text("service")).expect("valid attribute");

    let mut flag_attrs = Attributes::empty();
    flag_attrs.put("shared", text("flag")).expect("valid attribute");
    flag_attrs.put("cohort", text("beta")).expect("valid attribute");

    let flag = FeatureFlag::new(test_id("attributed_flag"), FlagValue::from(true))
        .attributes(flag_attrs);
    let flags = build(
        FeatureFlagsFactory::new().attributes(service_attrs).add_flag(flag).expect("add ok"),
    );

    let request = flags.current_request(&test_id("attributed_flag")).expect("known flag");
    assert_eq!(entry(&request, "identifier"), Some(&text("00000000-0000-0000-0000-000000000003")));
    assert_eq!(entry(&request, "key"), Some(&text("attributed_flag")));
    let attributes = entry(&request, "attributes").expect("attributes present");
    assert_eq!(entry(attributes, "env"), Some(&text("prod")));
    assert_eq!(entry(attributes, "shared"), Some(&text("flag")));
    assert_eq!(entry(attributes, "cohort"), Some(&text("beta")));
}

#[test]
fn build_request_omits_attributes_when_none_registered() {
    let flags = build(FeatureFlagsFactory::new());
    let request = flags.build_request(&test_id("plain_flag"), None);
    assert!(entry(&request, "attributes").is_none());
}

#[test]
fn concurrent_fetches_for_same_id_share_one_network_call() {
    let id = test_id("shared_flag");
    let mut flags = with_flag("shared_flag", FlagValue::from(true));
    assert!(matches!(flags.fetch(&id), Ok(Role::Leader(_))));
    assert!(matches!(flags.fetch(&id), Ok(Role::Follower)));
    let outcome = flags.read_check(&id, unreachable());
    assert!(outcome.is_err());
    match flags.complete_fetch(&id, &outcome, 0) {
        Err(e) => assert_eq!(
            e.message(),
            "invalid feature flag fetch: transport error: connection refused"
        ),
        Ok(_) => panic!("the fetch failed"),
    }
    assert!(matches!(flags.fetch(&id), Ok(Role::Leader(_))));
}

#[test]
fn an_abandoned_fetch_lets_the_next_caller_lead() {
    let id = test_id("shared_flag");
    let mut flags = with_flag("shared_flag", FlagValue::from(true));
    assert!(matches!(flags.fetch(&id), Ok(Role::Leader(_))));
    flags.abandon_fetch(&id);
    assert!(matches!(flags.fetch(&id), Ok(Role::Leader(_))));
}

#[test]
fn fetches_of_different_flags_do_not_wait() {
    let factory = FeatureFlagsFactory::new()
        .add_flag(FeatureFlag::new(test_id("one"), FlagValue::from(true)))
        .expect("add ok")
        .add_flag(FeatureFlag::new(test_id("two"), FlagValue::from(true)))
        .expect("add ok");
    let mut flags = build(factory);
    assert!(matches!(flags.fetch(&test_id("one")), Ok(Role::Leader(_))));
    assert!(matches!(flags.fetch(&test_id("two")), Ok(Role::Leader(_))));
    assert!(matches!(flags.fetch(&test_id("one")), Ok(Role::Follower)));
}

#[test]
fn cached_returns_none_for_unregistered_flag() {
    let flags = build(FeatureFlagsFactory::new());
    assert_eq!(flags.cached(&test_id("nonexistent"), 0), None);
}

#[test]
fn cached_returns_none_when_nothing_fetched_yet() {
    let flags = with_flag("never_fetched", FlagValue::from("default-val"));
    assert_eq!(flags.cached(&test_id("never_fetched"), 0), None);
}

#[test]
fn cached_returns_value_without_network_when_valid() {
    let id = test_id("sync_cached_flag");
    let mut flags = with_flag("sync_cached_flag", FlagValue::from("default-val"));
    flags.store(&id, &Ok(FlagValue::from("cached-sync-val")), 0);
    assert_eq!(flags.cached(&id, 1), Some(FlagValue::from("cached-sync-val")));
}

#[test]
fn cached_returns_none_while_a_fetch_is_in_progress() {
    let id = test_id("busy");
    let mut flags = with_flag("busy", FlagValue::from("default-val"));
    flags.store(&id, &Ok(FlagValue::from("old")), 0);
    assert!(flags.fetch(&id).is_ok());
    assert_eq!(flags.cached(&id, 1), None);
    assert!(matches!(flags.when_ready(&id, 1), Ok(Readiness::Ready(_))));
    assert!(flags.complete_fetch(&id, &Ok(FlagValue::from("new")), 2).is_ok());
    assert_eq!(flags.cached(&id, 3), Some(FlagValue::from("new")));
}

#[test]
fn happy_path_fetch_caches_value_and_matches_request_shape() {
    let id = test_id("checkout_variant");
    let mut flags = with_flag("checkout_variant", FlagValue::from("off"));
    let body = match flags.fetch(&id).expect("known flag") {
        Role::Leader(body) => body,
        Role::Follower => panic!("nobody else fetches"),
    };
    assert_eq!(entry(&body, "key"), Some(&text("checkout_variant")));
    assert!(matches!(entry(&body, "identifier"), Some(JsonValue::String(_))));
    let outcome = flags.read_check(&id, Ok(answered(200, Some("{\"value\": \"on\"}"))));
    assert!(flags.complete_fetch(&id, &outcome, SECOND).is_ok());
    assert_eq!(outcome.expect("fetch succeeds"), FlagValue::from("on"));
    assert_eq!(flags.cached(&id, 2 * SECOND), Some(FlagValue::from("on")));
}

#[test]
fn ttl_expiry_triggers_a_fresh_fetch() {
    let id = test_id("short_ttl_flag");
    let flag = FeatureFlag::new(id.clone(), FlagValue::from("off"));
    let mut flags = build(FeatureFlagsFactory::new().add_flag(flag).expect("add ok").ttl(10));
    flags.store(&id, &Ok(FlagValue::from("on")), 100);
    assert!(matches!(flags.when_ready(&id, 109), Ok(Readiness::Ready(_))));
    assert_eq!(flags.cached(&id, 110), None);
    assert!(matches!(flags.when_ready(&id, 110), Ok(Readiness::Fetch)));
}

#[test]
fn failure_path_non_2xx_check_response_returns_err_without_panicking() {
    let id = test_id("failing_flag");
    let mut flags = with_flag("failing_flag", FlagValue::from("off"));
    let outcome = flags.read_check(&id, Ok(answered(503, None)));
    match &outcome {
        Err(e) => assert_eq!(
            e.message(),
            "invalid feature flag response: unexpected response status: 503 Service Unavailable ()"
        ),
        Ok(_) => panic!("the fetch failed"),
    }
    assert!(flags.complete_fetch(&id, &outcome, 0).is_err());
    assert_eq!(flags.cached(&id, 0), None);
}

fn response_error(default: FlagValue, code: u16, body: Option<&str>) -> String {
    let flag = FeatureFlag::new(test_id("f"), default);
    match read_response(&flag, &answered(code, body)) {
        Err(e) => e.message(),
        Ok(_) => panic!("not a value"),
    }
}

#[test]
fn responses_without_a_value_are_errors() {
    let default = || FlagValue::from(true);
    assert_eq!(
        response_error(default(), 200, None),
        "invalid feature flag response: response had no body"
    );
    assert_eq!(
        response_error(default(), 200, Some("x")),
        "invalid feature flag response: unexpected response body: x (expected value at line 1 column 1)"
    );
    assert_eq!(
        response_error(default(), 200, Some("{ \"b\": 1, \"a\": [] }")),
        "invalid feature flag response: missing or invalid 'value' in response: {\"a\":[],\"b\":1}"
    );
    assert_eq!(
        response_error(default(), 200, Some("[1]")),
        "invalid feature flag response: missing or invalid 'value' in response: [1]"
    );
    assert_eq!(
        response_error(default(), 200, Some("{\"value\":{\"x\":1.5}}")),
        "invalid feature flag response: value did not match expected type for flag f: {\"x\":1.5}"
    );
}

#[test]
fn responses_are_read_by_the_type_of_the_flag() {
    let number_flag = FeatureFlag::new(test_id("n"), number(0.0));
    let body = answered(200, Some("{\"value\": -2.5}"));
    assert_eq!(read_response(&number_flag, &body).expect("a number"), number(-2.5));
    let body = answered(299, Some("{\"value\": 18446744073709551615}"));
    assert_eq!(
        read_response(&number_flag, &body).expect("a number"),
        number(18446744073709551616.0)
    );
    let body = answered(200, Some("{\"value\": -7}"));
    assert_eq!(read_response(&number_flag, &body).expect("a number"), number(-7.0));
    let bool_flag = FeatureFlag::new(test_id("b"), FlagValue::from(false));
    let body = answered(200, Some("{\"value\": \"true\"}"));
    assert_eq!(read_response(&bool_flag, &body).expect("a boolean"), FlagValue::from(true));
}

#[test]
fn shared_outcomes_keep_the_text_of_an_error() {
    assert_eq!(clone_result(&Ok(number(1.0))).expect("a value"), number(1.0));
    match clone_result(&Err(Error::validation("kind", "reason"))) {
        Err(e) => assert_eq!(e.message(), "invalid feature flag fetch: invalid kind: reason"),
        Ok(_) => panic!("an error stays one"),
    }
}

#[test]
fn requests_go_to_the_path_that_fits() {
    let flags = build(FeatureFlagsFactory::new());
    let empty = JsonValue::Object(JsonMap::new());
    let tree: serde_json::Value = serde_json::from_str("{}").expect("valid JSON");
    let request =
        |endpoint| flags.request(endpoint, &empty, &tree).expect("request builds");
    assert!(flags.request(Endpoint::Check, &JsonValue::Null, &tree).is_err());
    assert_eq!(
        request(Endpoint::Check).url.as_str(),
        "https://flags.faststats.dev/v1/check"
    );
    assert_eq!(
        request(Endpoint::OptIn).url.as_str(),
        "https://flags.faststats.dev/v1/opt-in"
    );
    let request = request(Endpoint::OptOut);
    assert_eq!(request.url.as_str(), "https://flags.faststats.dev/v1/opt-out");
    assert_eq!(request.body, b"{}");
    assert!(FeatureFlagsFactory::new()
        .build(test_transport(), test_server_id(), Some("mailto:a@b.c"))
        .is_err());
}
