use std::sync::Arc;

use faststats_rs::error_tracking::helper::{
    anonymize, anonymize_username, collapse_stack, current_username, redact_ipv6,
    redact_password_attribute, truncate_chars, truncate_frame, truncate_message, MAX_FRAME_SIZE,
    MAX_MESSAGE_LENGTH, MAX_STACK_SIZE,
};
use faststats_rs::error_tracking::hooks::{PanicHooks, PanicStep};
use faststats_rs::error_tracking::service::{
    accepted, collect_causes, error_type_name, PanicLocation, MAX_CAUSE_DEPTH,
};
use faststats_rs::error_tracking::tracker::{CauseFrame, Tracker};
use faststats_rs::transport::StatusCode;
use faststats_rs::{
    Attributes, Error, ErrorTracker, ErrorTrackerFactory, IgnoreRule, JsonMap, JsonValue,
    MetricsEvent, Number, Pattern, SdkInfo, ServerId, SubmissionOutcome, Token, TrackedError, Transport,
};

fn strings(items: &[&str]) -> Vec<String> {
    items.iter().map(|s| s.to_string()).collect()
}

fn empty() -> JsonValue {
    JsonValue::Object(JsonMap::new())
}

fn tree(text: &str) -> serde_json::Value {
    serde_json::from_str(text).expect("valid JSON")
}

fn entry<'a>(value: &'a JsonValue, key: &str) -> Option<&'a JsonValue> {
    match value {
        JsonValue::Object(map) => map.get(key),
        _ => None,
    }
}

fn items(value: &JsonValue) -> &Vec<JsonValue> {
    match value {
        JsonValue::Array(items) => items,
        _ => panic!("not an array"),
    }
}

fn text(s: &str) -> JsonValue {
    JsonValue::string(s)
}

fn pattern(source: &str) -> Pattern {
    Pattern::new(source).expect("valid pattern")
}

#[test]
fn anonymizes_ipv4() {
    let result = anonymize("connect to 192.168.1.10 now", &[], None);
    assert_eq!(result, "connect to [ipv4] now");
}

#[test]
fn anonymizes_ipv6() {
    let result = anonymize("host 2001:db8:85a3:0:0:8a2e:370:7334 unreachable", &[], None);
    assert!(result.contains("[ipv6]"));
    assert!(!result.contains("2001:db8"));
}

#[test]
fn does_not_anonymize_elided_ipv6() {
    let result = anonymize("host 2001:db8::1 unreachable", &[], None);
    assert!(!result.contains("[ipv6]"));
    assert!(result.contains("2001:db8::1"));

    let loopback = anonymize("bind ::1 failed", &[], None);
    assert!(!loopback.contains("[ipv6]"));
    assert!(loopback.contains("::1"));
}

#[test]
fn anonymizes_unix_home_path() {
    let result = anonymize("failed to read /home/alice/config.toml", &[], None);
    assert_eq!(result, "failed to read /home/[home]/config.toml");
}

#[test]
fn anonymizes_macos_home_path() {
    let result = anonymize("failed to read /Users/alice/config.toml", &[], None);
    assert_eq!(result, "failed to read /Users/[home]/config.toml");
}

#[test]
fn anonymizes_windows_home_path() {
    let result = anonymize(r"failed to read C:\Users\alice\config.toml", &[], None);
    assert_eq!(result, r"failed to read C:\Users\[home]\config.toml");
}

#[test]
fn anonymizes_discord_webhook() {
    let text = "webhook: https://discord.com/api/webhooks/123456789/abcDEF-123_xyz";
    let result = anonymize(text, &[], None);
    assert_eq!(result, "webhook: [discord_webhook]");
}

#[test]
fn anonymizes_password_query_param() {
    let text = "jdbc:mysql://host/db?user=admin&password=hunter2&ssl=true";
    let result = anonymize(text, &[], None);
    assert!(result.contains("[password]"));
    assert!(!result.contains("hunter2"));
    assert!(result.contains("user=admin"));
}

#[test]
fn anonymizes_username_case_insensitively() {
    let result = anonymize("path was /srv/ALICE/data", &[], Some("alice"));
    assert!(result.contains("[user]"));
    assert!(!result.to_lowercase().contains("alice"));
}

#[test]
fn applies_user_supplied_patterns() {
    let custom = vec![(pattern(r"secret-\d+"), "[secret]")];
    let result = anonymize("token secret-42 leaked", &custom, None);
    assert_eq!(result, "token [secret] leaked");
}

#[test]
fn default_patterns_apply_before_custom_ones() {
    let custom = vec![(pattern(r"192\.168\.1\.10"), "[should-not-match]")];
    let result = anonymize("ip 192.168.1.10 seen", &custom, None);
    assert_eq!(result, "ip [ipv4] seen");
}

#[test]
fn ipv6_keeps_what_stands_around_it() {
    assert_eq!(redact_ipv6("[1:2:3:4:5:6:7:8]"), "[[ipv6]]");
    assert_eq!(redact_ipv6("nothing here"), "nothing here");
    assert_eq!(
        redact_ipv6("1:2:3:4:5:6:7:8 1:2:3:4:5:6:7:9,a:b:c:d:e:f:0:1;1:1:1:1:1:1:1:1"),
        "[ipv6] [ipv6],[ipv6];[ipv6]"
    );
}

#[test]
fn password_keeps_its_key() {
    assert_eq!(redact_password_attribute("PASSWORD=abc;x"), "PASSWORD=[password];x");
}

#[test]
fn generic_usernames_are_not_scrubbed() {
    assert_eq!(anonymize_username("user root ran", Some("Root")), "user root ran");
    assert_eq!(anonymize_username("ec2-user", Some("ec2-user")), "ec2-user");
    assert_eq!(anonymize_username("nobody", None), "nobody");
    assert_eq!(anonymize_username("nobody", Some("")), "nobody");
}

#[test]
fn usernames_are_taken_literally() {
    assert_eq!(anonymize_username("a.b and axb", Some("a.b")), "[user] and axb");
    assert_eq!(anonymize_username("(x|y)#~", Some("(x|y)#~")), "[user]");
}

#[test]
fn username_comes_from_the_first_variable_that_is_set() {
    let user = Some("alice".to_string());
    let username = Some("bob".to_string());
    assert_eq!(current_username(user.clone(), username.clone()), user);
    assert_eq!(current_username(None, username.clone()), username);
    assert_eq!(current_username(Some("  ".to_string()), username), None);
    assert_eq!(current_username(None, None), None);
}

#[test]
fn text_without_a_match_is_untouched() {
    let text = "nothing to see; 1.2.3 and ::1";
    assert_eq!(anonymize(text, &[(pattern("zzz"), "[z]")], Some("carol")), text);
}

#[test]
fn invalid_patterns_are_refused() {
    match Pattern::new("(") {
        Err(e) => assert!(e.message().starts_with("invalid pattern: ")),
        Ok(_) => panic!("an open group is no pattern"),
    }
    assert_eq!(pattern("a+").as_str(), "a+");
    assert!(pattern("^a+$").is_match("aaa"));
    assert!(!pattern("^a+$").is_match("aab"));
}

#[test]
fn truncate_message_leaves_short_message_untouched() {
    assert_eq!(truncate_message("short"), "short");
}

#[test]
fn truncate_message_truncates_long_message() {
    let long = "a".repeat(MAX_MESSAGE_LENGTH + 50);
    let truncated = truncate_message(&long);
    assert_eq!(truncated.chars().count(), MAX_MESSAGE_LENGTH);
    assert!(truncated.ends_with("..."));
}

#[test]
fn truncation_counts_characters_not_bytes() {
    let exact = "\u{e9}".repeat(MAX_MESSAGE_LENGTH);
    assert_eq!(truncate_message(&exact), exact);
    assert_eq!(truncate_chars("\u{e9}\u{e8}\u{ea}\u{eb}\u{ef}", 4), "\u{e9}...");
    assert_eq!(truncate_chars("abcd", 2), "...");
    assert_eq!(truncate_frame(&"y".repeat(MAX_FRAME_SIZE)).len(), MAX_FRAME_SIZE);
}

#[test]
fn collapse_stack_deduplicates_consecutive_frames() {
    let frames = vec!["a".to_string(), "a".to_string(), "a".to_string(), "b".to_string()];
    let collapsed = collapse_stack(&frames);
    assert_eq!(collapsed, vec!["a (x3)".to_string(), "b".to_string()]);
}

#[test]
fn collapse_stack_detects_repeating_cycle() {
    let frames = vec![
        "a".to_string(),
        "b".to_string(),
        "a".to_string(),
        "b".to_string(),
        "a".to_string(),
        "b".to_string(),
        "c".to_string(),
    ];
    let collapsed = collapse_stack(&frames);
    assert_eq!(
        collapsed,
        vec![
            "a".to_string(),
            "b".to_string(),
            "... (repeated 3 times)".to_string(),
            "c".to_string(),
        ]
    );
}

#[test]
fn collapse_stack_truncates_long_frames() {
    let long_frame = "x".repeat(MAX_FRAME_SIZE + 20);
    let frames = vec![long_frame];
    let collapsed = collapse_stack(&frames);
    assert_eq!(collapsed[0].chars().count(), MAX_FRAME_SIZE);
    assert!(collapsed[0].ends_with("..."));
}

#[test]
fn collapse_stack_caps_total_frame_count() {
    let frames: Vec<String> = (0..(MAX_STACK_SIZE + 10)).map(|i| format!("frame_{i}")).collect();
    let collapsed = collapse_stack(&frames);
    assert_eq!(collapsed.len(), MAX_STACK_SIZE + 1);
    assert!(collapsed.last().unwrap().contains("more"));
}

#[test]
fn collapse_stack_says_how_many_frames_are_missing() {
    let frames: Vec<String> = (0..40).map(|i| format!("frame_{i}")).collect();
    let collapsed = collapse_stack(&frames);
    assert_eq!(collapsed[0], "frame_0");
    assert_eq!(collapsed[14], "frame_14");
    assert_eq!(collapsed[15], "frame_25");
    assert_eq!(collapsed[29], "frame_39");
    assert_eq!(collapsed[30], "... (10 more)");
    assert_eq!(collapse_stack(&frames[..30].to_vec()), frames[..30].to_vec());
    let one_more = collapse_stack(&frames[..31].to_vec());
    assert_eq!(one_more[14], "frame_14");
    assert_eq!(one_more[15], "frame_16");
    assert_eq!(one_more[30], "... (1 more)");
}

#[test]
fn collapse_stack_leaves_short_unique_stack_untouched() {
    let frames = vec!["a".to_string(), "b".to_string(), "c".to_string()];
    let collapsed = collapse_stack(&frames);
    assert_eq!(collapsed, frames);
}

#[test]
fn collapse_stack_handles_edge_cases() {
    assert_eq!(collapse_stack(&vec![]), Vec::<String>::new());
    assert_eq!(
        collapse_stack(&strings(&["x", "x", "y", "x", "x", "y"])),
        strings(&["x (x2)", "y", "... (repeated 2 times)"])
    );
    assert_eq!(
        collapse_stack(&strings(&["p", "a", "b", "a", "b", "a"])),
        strings(&["p", "a", "b", "... (repeated 2 times)", "a"])
    );
}

fn error(error_type: &str, message: Option<&str>, stack: &[&str]) -> TrackedError {
    TrackedError {
        error_type: error_type.to_string(),
        message: message.map(|m| m.to_string()),
        stack: stack.iter().map(|s| s.to_string()).collect(),
        handled: true,
        context: None,
        causes: Vec::new(),
        count: 1,
    }
}

#[test]
fn tracks_new_error() {
    let mut tracker = Tracker::new();
    assert!(tracker.track(error("PanicError", Some("boom"), &["a", "b"])));
    assert!(!tracker.is_empty());
}

#[test]
fn duplicate_identity_increments_count_instead_of_duplicating() {
    let mut tracker = Tracker::new();
    tracker.track(error("PanicError", Some("boom"), &["a", "b"]));
    tracker.track(error("PanicError", Some("boom"), &["a", "b"]));
    tracker.track(error("PanicError", Some("boom"), &["a", "b"]));

    let drained = tracker.drain();
    assert_eq!(drained.len(), 1);
    assert_eq!(drained[0].count, 3);
}

#[test]
fn different_message_is_a_different_identity() {
    let mut tracker = Tracker::new();
    tracker.track(error("PanicError", Some("boom"), &["a"]));
    tracker.track(error("PanicError", Some("bang"), &["a"]));

    let drained = tracker.drain();
    assert_eq!(drained.len(), 2);
}

#[test]
fn different_stack_is_a_different_identity() {
    let mut tracker = Tracker::new();
    tracker.track(error("PanicError", Some("boom"), &["a"]));
    tracker.track(error("PanicError", Some("boom"), &["b"]));

    let drained = tracker.drain();
    assert_eq!(drained.len(), 2);
}

#[test]
fn every_field_but_the_count_is_part_of_the_identity() {
    let base = error("E", Some("m"), &["f"]);
    let mut unhandled = error("E", Some("m"), &["f"]);
    unhandled.handled = false;
    let mut with_context = error("E", Some("m"), &["f"]);
    with_context.context = Some(Attributes::empty());
    let mut with_cause = error("E", Some("m"), &["f"]);
    with_cause.causes.push(CauseFrame {
        error_type: "C".to_string(),
        message: None,
        stack: vec![],
    });
    let mut counted = error("E", Some("m"), &["f"]);
    counted.count = 9;
    assert!(base.identity() != unhandled.identity());
    assert!(base.identity() != with_context.identity());
    assert!(base.identity() != with_cause.identity());
    assert!(base.identity() != error("E", None, &["f"]).identity());
    assert!(base.identity() != error("F", Some("m"), &["f"]).identity());
    assert!(base.identity() == counted.identity());

    let mut tracker = Tracker::default();
    tracker.track(base);
    tracker.track(unhandled);
    tracker.track(with_context);
    tracker.track(with_cause);
    tracker.track(counted);
    let drained = tracker.drain();
    assert_eq!(drained.len(), 4);
    assert_eq!(drained[0].count, 2);
}

#[test]
fn the_two_zeros_are_different_identities() {
    let with = |x: f64| {
        let mut context = Attributes::empty();
        let value = JsonValue::Number(Number::Float(x.to_bits()));
        context.put("x", value).expect("finite value");
        let mut e = error("E", None, &[]);
        e.context = Some(context);
        e
    };
    let mut tracker = Tracker::new();
    tracker.track(with(0.0));
    tracker.track(with(-0.0));
    tracker.track(with(0.0));
    let drained = tracker.drain();
    assert_eq!(drained.len(), 2);
    assert_eq!(drained[0].count, 2);
}

#[test]
fn trackers_share_one_panic_hook() {
    let mut hooks = PanicHooks::new();
    assert!(hooks.attach(1));
    assert!(!hooks.attach(2));
    assert!(!hooks.attach(2));
    assert_eq!(
        hooks.on_panic(),
        vec![PanicStep::Record(2), PanicStep::Record(1), PanicStep::CallEarlier]
    );
    assert!(!hooks.detach(3));
    assert!(!hooks.detach(1));
    assert_eq!(hooks.on_panic(), vec![PanicStep::Record(2), PanicStep::CallEarlier]);
    assert!(hooks.detach(2));
    assert!(!hooks.detach(2));
    assert!(hooks.attach(2));
    assert!(PanicHooks::default().attach(7));
}

#[test]
fn the_count_stops_at_its_limit() {
    let mut tracker = Tracker::new();
    let mut many = error("E", None, &[]);
    many.count = u32::MAX;
    tracker.track(many);
    tracker.track(error("E", None, &[]));
    assert_eq!(tracker.drain()[0].count, u32::MAX);
}

#[test]
fn drain_empties_the_tracker() {
    let mut tracker = Tracker::new();
    tracker.track(error("PanicError", None, &[]));
    tracker.drain();
    assert!(tracker.is_empty());
}

#[test]
fn drain_preserves_first_seen_order() {
    let mut tracker = Tracker::new();
    tracker.track(error("First", None, &[]));
    tracker.track(error("Second", None, &[]));
    tracker.track(error("Third", None, &[]));

    let drained = tracker.drain();
    let types: Vec<&str> = drained.iter().map(|e| e.error_type.as_str()).collect();
    assert_eq!(types, vec!["First", "Second", "Third"]);
}

#[test]
fn repeats_do_not_change_the_order() {
    let mut tracker = Tracker::new();
    tracker.track(error("First", None, &[]));
    tracker.track(error("Second", None, &[]));
    tracker.track(error("First", None, &[]));
    let drained = tracker.drain();
    assert_eq!(drained[0].error_type, "First");
    assert_eq!(drained[0].count, 2);
    assert_eq!(drained[1].error_type, "Second");
}

#[test]
fn a_drain_gives_each_error_once_with_its_count() {
    let mut tracker = Tracker::new();
    for name in ["B", "A", "B", "C", "A", "B"] {
        assert!(tracker.track(error(name, None, &[])));
    }
    let drained = tracker.drain();
    let summary: Vec<(&str, u32)> =
        drained.iter().map(|e| (e.error_type.as_str(), e.count)).collect();
    assert_eq!(summary, vec![("B", 3), ("A", 2), ("C", 1)]);
    assert!(tracker.is_empty());
    assert!(tracker.drain().is_empty());
}

#[test]
fn ignore_rule_by_type_suppresses_matching_errors() {
    let mut tracker = Tracker::new();
    tracker.add_ignore_rule(IgnoreRule::Type("NoisyError".to_string()));

    assert!(!tracker.track(error("NoisyError", Some("anything"), &[])));
    assert!(tracker.is_empty());
}

#[test]
fn ignore_rule_by_message_pattern_suppresses_matching_errors() {
    let mut tracker = Tracker::new();
    tracker.add_ignore_rule(IgnoreRule::MessagePattern(pattern(r"connection reset")));

    assert!(!tracker.track(error("IoError", Some("connection reset by peer"), &[])));
    assert!(tracker.track(error("IoError", Some("disk full"), &[])));
}

#[test]
fn ignore_rule_by_type_and_pattern_requires_both() {
    let mut tracker = Tracker::new();
    tracker.add_ignore_rule(IgnoreRule::TypeAndPattern(
        "IoError".to_string(),
        pattern(r"timeout"),
    ));

    assert!(tracker.track(error("IoError", Some("disk full"), &[])));
    assert!(tracker.track(error("NetError", Some("timeout occurred"), &[])));
    assert!(!tracker.track(error("IoError", Some("timeout occurred"), &[])));
}

#[test]
fn message_pattern_rule_never_matches_messageless_error() {
    let mut tracker = Tracker::new();
    tracker.add_ignore_rule(IgnoreRule::MessagePattern(pattern(r".*")));
    assert!(tracker.track(error("PanicError", None, &[])));
}

#[test]
fn rules_survive_a_drain() {
    let mut tracker = Tracker::new();
    tracker.add_ignore_rule(IgnoreRule::Type("Noisy".to_string()));
    tracker.drain();
    assert!(tracker.is_ignored("Noisy", None));
    assert!(!tracker.is_ignored("noisy", None));
}

#[test]
fn to_json_includes_count_only_when_greater_than_one() {
    let mut single = error("E", Some("m"), &["f"]);
    single.count = 1;
    assert!(entry(&single.to_json(), "count").is_none());

    let mut repeated = error("E", Some("m"), &["f"]);
    repeated.count = 5;
    assert_eq!(entry(&repeated.to_json(), "count"), Some(&JsonValue::unsigned(5)));
}

#[test]
fn to_json_omits_message_when_absent() {
    let error = error("E", None, &["f"]);
    assert!(entry(&error.to_json(), "message").is_none());
}

#[test]
fn to_json_appends_causes_to_the_stack() {
    let mut e = error("E", Some("m"), &["f"]);
    e.causes.push(CauseFrame {
        error_type: "Io".to_string(),
        message: Some("gone".to_string()),
        stack: strings(&["g"]),
    });
    e.causes.push(CauseFrame { error_type: "Raw".to_string(), message: None, stack: vec![] });
    e.context = Some(Attributes::empty());
    let json = e.to_json();
    assert_eq!(
        entry(&json, "stack"),
        Some(&JsonValue::strings(&strings(&[
            "f",
            "Caused by: Io: gone",
            "g",
            "Caused by: Raw",
        ])))
    );
    assert!(entry(&json, "context").is_none());
    assert_eq!(entry(&json, "error"), Some(&text("E")));
    assert_eq!(entry(&json, "handled"), Some(&JsonValue::Bool(true)));
}

#[test]
fn copies_equal_what_they_copy() {
    let cause = CauseFrame {
        error_type: "C".to_string(),
        message: Some("m".to_string()),
        stack: strings(&["a", "b"]),
    };
    assert!(cause.clone() == cause);
    let other = CauseFrame { stack: strings(&["a"]), ..cause.clone() };
    assert!(other != cause);
    let mut e = error("E", Some("m"), &["f"]);
    e.causes.push(cause);
    e.count = 4;
    let copy = e.clone();
    assert!(copy.identity() == e.identity());
    assert_eq!(copy.count, 4);
}

fn test_sdk_info() -> SdkInfo {
    SdkInfo::new(
        "faststats-rs-tests",
        "0.0.0",
        "FastStats Rust SDK v0.0.0 (tests-project:0.0.0)",
    )
    .expect("valid sdk info")
}

fn test_transport() -> Arc<Transport> {
    let token = Token::new(&"a".repeat(32)).expect("valid token");
    Arc::new(Transport::new(token, test_sdk_info()))
}

fn test_server_id() -> ServerId {
    ServerId::parse("00000000-0000-0000-0000-000000000002").expect("valid literal uuid")
}

fn factory() -> ErrorTrackerFactory {
    ErrorTrackerFactory::new("tests-project", test_sdk_info())
}

fn build(factory: ErrorTrackerFactory) -> ErrorTracker {
    factory.build(test_transport(), test_server_id(), None).expect("builds")
}

#[test]
fn no_pending_errors_yields_no_payload() {
    let mut tracker = build(factory());
    assert!(tracker.is_empty());
    assert!(tracker.create_data(None).is_none());
}

#[test]
fn track_error_populates_payload_shape() {
    let mut tracker = build(factory());
    tracker.track_error(
        "CustomError",
        Some("something broke"),
        &vec!["frame_a".to_string(), "frame_b".to_string()],
        None,
        None,
    );

    let data = tracker.create_data(None).expect("payload present");
    assert_eq!(entry(&data, "identifier"), Some(&text("00000000-0000-0000-0000-000000000002")));
    assert_eq!(entry(&data, "language"), Some(&text("rust")));
    assert_eq!(entry(&data, "project_name"), Some(&text("tests-project")));
    assert_eq!(entry(&data, "sdk_name"), Some(&text("faststats-rs-tests")));
    assert_eq!(entry(&data, "sdk_version"), Some(&text("0.0.0")));
    assert!(entry(&data, "context").is_none());
    let errors = items(entry(&data, "errors").expect("errors array"));
    assert_eq!(errors.len(), 1);
    assert_eq!(entry(&errors[0], "error"), Some(&text("CustomError")));
    assert_eq!(entry(&errors[0], "message"), Some(&text("something broke")));
    assert_eq!(entry(&errors[0], "handled"), Some(&JsonValue::Bool(true)));
}

#[test]
fn track_error_anonymizes_message_and_stack() {
    let mut tracker = build(factory());
    tracker.track_error(
        "IoError",
        Some("failed to reach 10.0.0.5"),
        &vec!["at /home/tests/app.rs:10".to_string()],
        None,
        None,
    );

    let data = tracker.create_data(None).expect("payload present");
    let errors = items(entry(&data, "errors").unwrap());
    assert_eq!(entry(&errors[0], "message"), Some(&text("failed to reach [ipv4]")));
    assert_eq!(
        items(entry(&errors[0], "stack").unwrap())[0],
        text("at /home/[home]/app.rs:10")
    );
}

#[test]
fn ignored_error_type_is_never_recorded() {
    let mut tracker = build(factory().ignore_error_type("NoisyError".to_string()));
    tracker.track_error("NoisyError", Some("ignored"), &vec![], None, None);
    assert!(tracker.is_empty());
}

#[test]
fn rules_of_the_factory_apply_to_the_reported_message() {
    let mut tracker = build(
        factory()
            .ignore_error_message(pattern("^peer \\[ipv4\\]$"))
            .ignore_error("Io".to_string(), pattern("disk")),
    );
    tracker.track_error("Net", Some("peer 10.1.2.3"), &vec![], None, None);
    tracker.track_error("Io", Some("disk full"), &vec![], None, None);
    assert!(tracker.is_empty());
    tracker.track_error("Net", Some("disk full"), &vec![], None, None);
    assert!(!tracker.is_empty());
}

#[test]
fn extra_patterns_and_the_username_apply_to_reports() {
    let mut tracker = build(factory().anonymize(pattern("sk-[a-z]+"), "[api_key]"));
    tracker.track_error(
        "E",
        Some("key sk-abc of alice"),
        &vec!["alice".to_string()],
        None,
        Some("alice"),
    );
    let data = tracker.create_data(None).expect("payload present");
    let errors = items(entry(&data, "errors").unwrap());
    assert_eq!(entry(&errors[0], "message"), Some(&text("key [api_key] of [user]")));
    assert_eq!(items(entry(&errors[0], "stack").unwrap())[0], text("[user]"));
}

#[test]
fn duplicate_errors_are_deduped_with_a_count() {
    let mut tracker = build(factory());
    tracker.track_error("E", Some("m"), &vec!["f".to_string()], None, None);
    tracker.track_error("E", Some("m"), &vec!["f".to_string()], None, None);

    let data = tracker.create_data(None).expect("payload present");
    let errors = items(entry(&data, "errors").unwrap());
    assert_eq!(errors.len(), 1);
    assert_eq!(entry(&errors[0], "count"), Some(&JsonValue::unsigned(2)));
}

#[test]
fn create_data_drains_pending_errors() {
    let mut tracker = build(factory());
    tracker.track_error("E", None, &vec![], None, None);
    assert!(tracker.create_data(None).is_some());
    assert!(tracker.is_empty());
    assert!(tracker.create_data(None).is_none());
}

#[test]
fn tracker_level_attributes_appear_as_context() {
    let mut attrs = Attributes::empty();
    attrs.put("environment", text("staging")).expect("valid attribute");

    let mut tracker = build(factory().attributes(attrs));
    tracker.track_error("E", None, &vec![], None, None);
    let data = tracker.create_data(None).expect("payload present");
    let context = entry(&data, "context").expect("context present");
    assert_eq!(entry(context, "environment"), Some(&text("staging")));
}

#[test]
fn attributes_win_over_the_metrics_snapshot() {
    let mut attrs = Attributes::empty();
    attrs.put("os_name", text("mine")).expect("valid attribute");
    let mut snapshot = JsonMap::new();
    snapshot.insert("os_name", text("Linux"));
    snapshot.insert("core_count", JsonValue::unsigned(8));

    let mut tracker = build(factory().attributes(attrs));
    tracker.track_error("E", None, &vec![], None, None);
    let data = tracker.create_data(Some(&snapshot)).expect("payload present");
    let context = entry(&data, "context").expect("context present");
    assert_eq!(entry(context, "os_name"), Some(&text("mine")));
    assert_eq!(entry(context, "core_count"), Some(&JsonValue::unsigned(8)));
}

#[test]
fn per_error_attributes_appear_on_the_error_entry() {
    let mut attrs = Attributes::empty();
    attrs.put("user_id", JsonValue::unsigned(42)).expect("valid attribute");

    let mut tracker = build(factory());
    tracker.track_error("E", None, &vec![], Some(attrs), None);
    let data = tracker.create_data(None).expect("payload present");
    let errors = items(entry(&data, "errors").unwrap());
    let context = entry(&errors[0], "context").expect("context present");
    assert_eq!(entry(context, "user_id"), Some(&JsonValue::unsigned(42)));
}

#[test]
fn causes_are_reported_with_their_text() {
    let mut tracker = build(factory());
    tracker.track_error_with_source(
        "E",
        Some("top"),
        &vec!["f".to_string()],
        None,
        &strings(&["lost 10.0.0.1", "root cause", "lost 10.0.0.1", "unseen"]),
        None,
    );
    let data = tracker.create_data(None).expect("payload present");
    let errors = items(entry(&data, "errors").unwrap());
    assert_eq!(
        entry(&errors[0], "stack"),
        Some(&JsonValue::strings(&strings(&[
            "f",
            "Caused by: lost [ipv4]: lost [ipv4]",
            "lost [ipv4]",
            "Caused by: root cause: root cause",
            "root cause",
        ])))
    );
}

#[test]
fn nothing_of_a_cause_is_reported_in_the_clear() {
    let mut tracker = build(factory());
    let chain = strings(&["connect to 10.0.0.5 failed", "alice lost /home/alice/key"]);
    tracker.track_error_with_source("E", None, &vec![], None, &chain, Some("alice"));
    let data = tracker.create_data(None).expect("payload present");
    let errors = items(entry(&data, "errors").unwrap());
    assert_eq!(
        entry(&errors[0], "stack"),
        Some(&JsonValue::strings(&strings(&[
            "Caused by: connect to [ipv4] failed: connect to [ipv4] failed",
            "connect to [ipv4] failed",
            "Caused by: [user] lost /home/[home]/key: [user] lost /home/[home]/key",
            "[user] lost /home/[home]/key",
        ])))
    );
}

#[test]
fn the_type_of_a_cause_is_cut_after_anonymization() {
    let mut tracker = build(factory());
    let text = format!("{} 10.0.0.5", "x".repeat(35));
    tracker.track_error_with_source("E", None, &vec![], None, &vec![text], None);
    let data = tracker.create_data(None).expect("payload present");
    let errors = items(entry(&data, "errors").unwrap());
    let header = format!("Caused by: {x} [ipv: {x} [ipv4]", x = "x".repeat(35));
    assert_eq!(items(entry(&errors[0], "stack").unwrap())[0], JsonValue::string(&header));
}

#[test]
fn chains_of_causes_are_cut() {
    let chain: Vec<String> = (0..30).map(|i| format!("cause {i}")).collect();
    let causes = collect_causes(&chain);
    assert_eq!(causes.len(), MAX_CAUSE_DEPTH);
    assert_eq!(causes[15].message, Some("cause 15".to_string()));
    assert!(collect_causes(&vec![]).is_empty());
    assert_eq!(collect_causes(&strings(&["a", "a"])).len(), 1);
}

#[test]
fn cause_types_are_prefixes_of_the_text() {
    assert_eq!(error_type_name(""), "UnknownCause");
    assert_eq!(error_type_name("short"), "short");
    assert_eq!(error_type_name(&"\u{e9}".repeat(50)), "\u{e9}".repeat(40));
}

#[test]
fn panics_are_reported_as_unhandled() {
    let mut tracker = build(factory());
    let location =
        Some(PanicLocation { file: "src/main.rs".to_string(), line: 12, column: 5 });
    tracker.track_panic(Some("boom"), &location, Some("main"), None);
    tracker.track_panic(None, &None, None, None);
    let data = tracker.create_data(None).expect("payload present");
    let errors = items(entry(&data, "errors").unwrap());
    assert_eq!(entry(&errors[0], "error"), Some(&text("panic")));
    assert_eq!(entry(&errors[0], "message"), Some(&text("boom")));
    assert_eq!(entry(&errors[0], "handled"), Some(&JsonValue::Bool(false)));
    assert_eq!(items(entry(&errors[0], "stack").unwrap())[0], text("src/main.rs:12:5"));
    let context = entry(&errors[0], "context").unwrap();
    assert_eq!(entry(context, "thread_name"), Some(&text("main")));
    assert_eq!(items(entry(&errors[1], "stack").unwrap())[0], text("unknown location"));
    let context = entry(&errors[1], "context").unwrap();
    assert_eq!(entry(context, "thread_name"), Some(&text("unnamed")));
    assert!(entry(&errors[1], "message").is_none());
}

#[test]
fn failed_metrics_are_reported() {
    let mut tracker = build(factory());
    let event = MetricsEvent::CustomMetricFailed {
        metric_id: "shards".to_string(),
        error: "invalid t: boom".to_string(),
    };
    tracker.track_metrics_event(&event, None);
    let data = tracker.create_data(None).expect("payload present");
    let errors = items(entry(&data, "errors").unwrap());
    assert_eq!(entry(&errors[0], "error"), Some(&text("CustomMetricFailure")));
    assert_eq!(
        entry(&errors[0], "message"),
        Some(&text("custom metric 'shards' failed: invalid t: boom"))
    );
}

#[test]
fn the_panic_hook_is_installed_and_detached_once() {
    let mut tracker = build(factory());
    assert!(!tracker.detach());
    assert!(tracker.install_panic_hook());
    assert!(!tracker.install_panic_hook());
    assert!(tracker.detach());
    assert!(!tracker.detach());
    assert!(tracker.install_panic_hook());
}

#[test]
fn submit_with_no_pending_errors_returns_true_without_network() {
    let mut tracker =
        factory().build(test_transport(), test_server_id(), Some("http://127.0.0.1:1")).expect("builds");
    assert!(tracker.create_data(None).is_none());
    assert!(accepted(&None));
}

#[test]
fn service_submit_against_unreachable_server_returns_false_not_panic() {
    let unreachable = Err(Error::Transport("connection refused".to_string()));
    assert!(!accepted(&Some(unreachable)));
}

#[test]
fn error_tracking_e2e_failure_path_non_2xx_response_returns_false_without_panicking() {
    let refused = SubmissionOutcome {
        status: StatusCode::from_u16(500).expect("three digits"),
        body: None,
    };
    assert!(!accepted(&Some(Ok(refused))));
    let taken = SubmissionOutcome {
        status: StatusCode::from_u16(204).expect("three digits"),
        body: None,
    };
    assert!(accepted(&Some(Ok(taken))));
}

#[test]
fn errors_are_sent_to_the_error_path() {
    let tracker = build(factory());
    let request = tracker.request(&empty(), &tree("{}")).expect("request builds");
    assert_eq!(request.url.as_str(), "https://metrics.faststats.dev/v1/error");
    let tracker = factory()
        .build(test_transport(), test_server_id(), Some("http://127.0.0.1:1"))
        .expect("builds");
    let request = tracker.request(&empty(), &tree("{}")).expect("request builds");
    assert_eq!(request.url.as_str(), "http://127.0.0.1:1/v1/error");
}

#[test]
fn an_address_without_paths_is_refused() {
    match factory().build(test_transport(), test_server_id(), Some("mailto:x@example.com")) {
        Err(e) => assert!(e
            .message()
            .starts_with("invalid server url in FASTSTATS_ERROR_TRACKER_SERVER: ")),
        Ok(_) => panic!("a mail address has no paths"),
    }
}
