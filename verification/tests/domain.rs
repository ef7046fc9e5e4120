use faststats_rs::domain::config::{read_bool_env, EnvOverrides};
use faststats_rs::value::JsonMap;
use faststats_rs::{Attributes, Config, JsonValue, Number, ServerId};

fn no_overrides() -> EnvOverrides {
    EnvOverrides {
        enabled: None,
        submit_metrics: None,
        error_tracking: None,
        additional_metrics: None,
        debug: None,
    }
}

fn fixed_uuid() -> ServerId {
    ServerId::parse("00000000-0000-0000-0000-000000000001").expect("valid literal UUID")
}

fn float(x: f64) -> JsonValue {
    JsonValue::Number(Number::Float(x.to_bits()))
}

#[test]
fn empty_has_no_entries() {
    let attrs = Attributes::empty();
    assert_eq!(attrs.len(), 0);
    assert!(attrs.is_empty());
}

#[test]
fn put_scalar_values() {
    let mut attrs = Attributes::empty();
    attrs.put("name", JsonValue::string("faststats")).expect("string value");
    attrs.put("count", JsonValue::unsigned(42)).expect("number value");
    attrs.put("active", JsonValue::Bool(true)).expect("bool value");

    assert_eq!(attrs.get("name"), Some(&JsonValue::String("faststats".to_string())));
    assert_eq!(attrs.get("count"), Some(&JsonValue::signed(42)));
    assert_eq!(attrs.get("active"), Some(&JsonValue::Bool(true)));
}

#[test]
fn put_nested_struct_value() {
    let mut info = JsonMap::new();
    info.insert("region", JsonValue::string("eu-west"));
    info.insert("shard_count", JsonValue::unsigned(3));
    info.insert("beta", JsonValue::Bool(false));
    let mut attrs = Attributes::empty();
    attrs.put("server_info", JsonValue::Object(info)).expect("struct value");

    let mut expected = JsonMap::new();
    expected.insert("beta", JsonValue::Bool(false));
    expected.insert("region", JsonValue::string("eu-west"));
    expected.insert("shard_count", JsonValue::unsigned(3));
    assert_eq!(attrs.get("server_info"), Some(&JsonValue::Object(expected)));
}

#[test]
fn put_deeply_nested_map_value() {
    let mut inner = JsonMap::new();
    inner.insert("sub-key1", JsonValue::string("value2"));
    let mut outer = JsonMap::new();
    outer.insert("key1", JsonValue::string("value1"));
    outer.insert("key2", JsonValue::Object(inner));
    let value = JsonValue::Object(outer);

    let mut attrs = Attributes::empty();
    attrs.put("nested", value.clone()).expect("nested value");
    assert_eq!(attrs.get("nested"), Some(&value));
}

#[test]
fn remove_deletes_entry() {
    let mut attrs = Attributes::empty();
    attrs.put("temp", JsonValue::unsigned(1)).expect("number value");
    assert!(attrs.contains_key("temp"));
    attrs.remove("temp");
    assert!(!attrs.contains_key("temp"));
}

#[test]
fn copy_of_is_independent() {
    let mut original = Attributes::empty();
    original.put("a", JsonValue::unsigned(1)).expect("number value");
    let mut copy = Attributes::copy_of(&original);
    copy.put("b", JsonValue::unsigned(2)).expect("number value");

    assert!(original.contains_key("a"));
    assert!(!original.contains_key("b"));
    assert!(copy.contains_key("a"));
    assert!(copy.contains_key("b"));
}

#[test]
fn join_prefers_second_on_conflict() {
    let mut first = Attributes::empty();
    first.put("shared", JsonValue::string("first")).expect("string value");
    first.put("only_first", JsonValue::unsigned(1)).expect("number value");

    let mut second = Attributes::empty();
    second.put("shared", JsonValue::string("second")).expect("string value");
    second.put("only_second", JsonValue::unsigned(2)).expect("number value");

    let joined = Attributes::join(Some(&first), Some(&second));
    assert_eq!(joined.get("shared"), Some(&JsonValue::String("second".to_string())));
    assert_eq!(joined.get("only_first"), Some(&JsonValue::unsigned(1)));
    assert_eq!(joined.get("only_second"), Some(&JsonValue::unsigned(2)));
}

#[test]
fn join_handles_none_arguments() {
    let mut only = Attributes::empty();
    only.put("k", JsonValue::string("v")).expect("string value");

    let joined_first_none = Attributes::join(None, Some(&only));
    assert!(joined_first_none.contains_key("k"));

    let joined_second_none = Attributes::join(Some(&only), None);
    assert!(joined_second_none.contains_key("k"));

    let joined_both_none = Attributes::join(None, None);
    assert!(joined_both_none.is_empty());
}

#[test]
fn put_rejects_nan_float() {
    let mut attrs = Attributes::empty();
    assert!(attrs.put("bad", float(f64::NAN)).is_err());
    assert!(!attrs.contains_key("bad"));
}

#[test]
fn put_rejects_infinite_float() {
    let mut attrs = Attributes::empty();
    assert!(attrs.put("bad", float(f64::INFINITY)).is_err());
    assert!(attrs.put("bad", float(f64::NEG_INFINITY)).is_err());
}

#[test]
fn put_rejects_non_finite_float_nested_in_struct() {
    let mut reading = JsonMap::new();
    reading.insert("value", float(f64::NAN));
    let mut attrs = Attributes::empty();
    let result = attrs.put("reading", JsonValue::Object(reading));
    assert!(result.is_err());
    assert!(!attrs.contains_key("reading"));
}

#[test]
fn put_null_value_is_not_stored() {
    let mut attrs = Attributes::empty();
    attrs.put("absent", JsonValue::Null).expect("null value");
    assert!(!attrs.contains_key("absent"));
}

#[test]
fn put_null_value_removes_existing_entry() {
    let mut attrs = Attributes::empty();
    attrs.put("k", JsonValue::unsigned(1)).expect("number value");
    assert!(attrs.contains_key("k"));

    attrs.put("k", JsonValue::Null).expect("null value");
    assert!(!attrs.contains_key("k"));
}

#[test]
fn put_can_be_chained() {
    let mut attrs = Attributes::empty();
    attrs
        .put("a", JsonValue::unsigned(1))
        .expect("number value")
        .put("b", JsonValue::unsigned(2))
        .expect("number value")
        .remove("a");
    assert!(!attrs.contains_key("a"));
    assert_eq!(attrs.get("b"), Some(&JsonValue::unsigned(2)));
    assert_eq!(attrs.len(), 1);
}

#[test]
fn refused_value_leaves_attributes_as_they_were() {
    let mut attrs = Attributes::empty();
    attrs.put("k", JsonValue::unsigned(1)).expect("number value");
    let list = JsonValue::Array(vec![JsonValue::Null, float(f64::INFINITY)]);
    match attrs.put("k", list) {
        Err(e) => {
            assert_eq!(e.message(), "invalid attribute value: float is NaN or infinite");
        }
        Ok(_) => panic!("an infinite float must be refused"),
    }
    assert_eq!(attrs.get("k"), Some(&JsonValue::unsigned(1)));
}

#[test]
fn finite_floats_are_accepted() {
    let mut attrs = Attributes::empty();
    attrs.put("max", float(f64::MAX)).expect("finite value");
    attrs.put("min", float(f64::MIN_POSITIVE)).expect("finite value");
    attrs.put("zero", float(-0.0)).expect("finite value");
    assert_eq!(attrs.len(), 3);
}

#[test]
fn attributes_with_equal_floats_are_equal() {
    let mut a = Attributes::empty();
    a.put("x", float(0.0)).expect("finite value");
    let mut b = Attributes::empty();
    b.put("x", float(-0.0)).expect("finite value");
    assert!(a == b);
    b.put("x", float(1.5)).expect("finite value");
    assert!(a != b);
}

#[test]
fn for_each_visits_every_attribute_once() {
    let mut attrs = Attributes::empty();
    attrs.put("a", JsonValue::unsigned(1)).expect("number value");
    attrs.put("b", JsonValue::unsigned(2)).expect("number value");
    let mut seen: Vec<(String, JsonValue)> = Vec::new();
    attrs.for_each(|key, value| seen.push((key.to_string(), value.clone())));
    seen.sort_by(|x, y| x.0.cmp(&y.0));
    assert_eq!(
        seen,
        vec![
            ("a".to_string(), JsonValue::unsigned(1)),
            ("b".to_string(), JsonValue::unsigned(2)),
        ]
    );
}

#[test]
fn attributes_become_a_json_object() {
    let mut attrs = Attributes::empty();
    attrs.put("a", JsonValue::unsigned(1)).expect("number value");
    let mut expected = JsonMap::new();
    expected.insert("a", JsonValue::unsigned(1));
    assert!(attrs.to_json_map() == expected);
    assert!(attrs.clone() == attrs);
    assert!(attrs.into_json_map() == expected);
    assert!(Attributes::default().is_empty());
}

#[test]
fn json_objects_compare_without_order() {
    let mut a = JsonMap::new();
    a.insert("x", JsonValue::unsigned(1));
    a.insert("y", JsonValue::unsigned(2));
    let mut b = JsonMap::new();
    b.insert("y", JsonValue::unsigned(2));
    b.insert("x", JsonValue::unsigned(7));
    assert!(a != b);
    b.insert("x", JsonValue::unsigned(1));
    assert!(a == b);
    assert_eq!(b.remove("x"), Some(JsonValue::unsigned(1)));
    assert_eq!(b.remove("x"), None);
    assert!(a != b);
    b.fill_missing(&a);
    assert!(a == b);
    assert!(JsonValue::signed(-1) != JsonValue::unsigned(1));
    assert!(JsonValue::signed(1) == JsonValue::unsigned(1));
}

#[test]
fn defaults_are_all_true() {
    let config = Config::new(fixed_uuid());
    assert!(config.enabled());
    assert!(config.submit_metrics());
    assert!(config.error_tracking());
    assert!(config.additional_metrics());
    assert!(config.debug());
}

#[test]
fn server_id_round_trips() {
    let id = fixed_uuid();
    let config = Config::new(id);
    assert_eq!(config.server_id(), id);
}

#[test]
fn clone_with_server_id_replaces_only_server_id() {
    let original = Config::new(fixed_uuid()).set_debug(false);
    let replaced_id =
        ServerId::parse("00000000-0000-0000-0000-000000000002").expect("valid literal uuid");
    let updated = original.clone_with_server_id(replaced_id);

    assert_eq!(updated.server_id(), replaced_id);
    assert!(!updated.debug());
    assert!(updated.enabled());
}

#[test]
fn builder_setters_override_individually() {
    let config = Config::new(fixed_uuid()).set_submit_metrics(false).set_debug(false);
    assert!(config.enabled());
    assert!(!config.submit_metrics());
    assert!(config.error_tracking());
    assert!(config.additional_metrics());
    assert!(!config.debug());
}

#[test]
fn env_override_disables_submit_metrics() {
    let env = EnvOverrides { submit_metrics: Some("false".to_string()), ..no_overrides() };
    let config = Config::new(fixed_uuid()).with_env_overrides(&env);
    assert!(!config.submit_metrics());
}

#[test]
fn env_override_is_case_insensitive() {
    let env = EnvOverrides { error_tracking: Some("FALSE".to_string()), ..no_overrides() };
    let config = Config::new(fixed_uuid()).with_env_overrides(&env);
    assert!(!config.error_tracking());
}

#[test]
fn unset_env_var_leaves_default() {
    let config = Config::new(fixed_uuid()).with_env_overrides(&no_overrides());
    assert!(config.additional_metrics());
}

#[test]
fn invalid_env_value_leaves_default() {
    let env = EnvOverrides { debug: Some("not-a-bool".to_string()), ..no_overrides() };
    let config = Config::new(fixed_uuid()).with_env_overrides(&env);
    assert!(config.debug());
}

#[test]
fn every_toggle_has_its_own_env_var() {
    let env = EnvOverrides {
        enabled: Some(" False ".to_string()),
        submit_metrics: None,
        error_tracking: None,
        additional_metrics: Some("false".to_string()),
        debug: None,
    };
    let config = Config::from_env(fixed_uuid(), &env);
    assert!(!config.enabled());
    assert!(config.submit_metrics());
    assert!(config.error_tracking());
    assert!(!config.additional_metrics());
    assert!(config.debug());
    assert_eq!(config.server_id(), fixed_uuid());
    assert_eq!(read_bool_env(Some("\ttRuE\n")), Some(true));
    assert_eq!(read_bool_env(Some("1")), None);
    assert_eq!(read_bool_env(None), None);
}

#[test]
fn env_override_can_turn_a_toggle_on() {
    let env = EnvOverrides { debug: Some("true".to_string()), ..no_overrides() };
    let config = Config::new(fixed_uuid()).set_debug(false).with_env_overrides(&env);
    assert!(config.debug());
}

#[test]
fn and_keeps_a_toggle_disabled_if_either_side_disables_it() {
    let developer_config = Config::new(fixed_uuid()).set_submit_metrics(true);
    let file_config = Config::new(fixed_uuid()).set_submit_metrics(false);
    let merged = developer_config.and(&file_config);
    assert!(!merged.submit_metrics());
}

#[test]
fn and_keeps_a_toggle_enabled_only_if_both_sides_enable_it() {
    let a = Config::new(fixed_uuid()).set_debug(true);
    let b = Config::new(fixed_uuid()).set_debug(true);
    assert!(a.and(&b).debug());
}

#[test]
fn and_takes_server_id_from_self() {
    let self_id = fixed_uuid();
    let other_id = ServerId::parse("00000000-0000-0000-0000-000000000002").expect("valid uuid");
    let merged = Config::new(self_id).and(&Config::new(other_id));
    assert_eq!(merged.server_id(), self_id);
}

#[test]
fn persisted_string_round_trips() {
    let original = Config::new(fixed_uuid()).set_submit_metrics(false).set_debug(false);
    let persisted = original.to_persisted_string();
    let parsed = Config::from_persisted_str(&persisted, ServerId::nil());
    assert_eq!(parsed, original);
}

#[test]
fn persisted_string_has_one_line_for_each_field() {
    let config = Config::new(fixed_uuid()).set_error_tracking(false);
    assert_eq!(
        config.to_persisted_string(),
        "server_id=00000000-0000-0000-0000-000000000001\nenabled=true\nsubmit_metrics=true\nerror_tracking=false\nadditional_metrics=true\ndebug=true\n"
    );
}

#[test]
fn from_persisted_str_defaults_missing_fields() {
    let parsed = Config::from_persisted_str("enabled=false\n", fixed_uuid());
    assert_eq!(parsed.server_id(), fixed_uuid());
    assert!(!parsed.enabled());
    assert!(parsed.submit_metrics());
}

#[test]
fn from_persisted_str_ignores_unparseable_lines() {
    let parsed = Config::from_persisted_str("debug=not-a-bool\nenabled=false", fixed_uuid());
    assert!(parsed.debug());
    assert!(!parsed.enabled());
}

#[test]
fn from_persisted_str_takes_the_last_of_several_lines() {
    let text = "# comment\r\n\r\n debug = false \r\ndebug=FALSE\nserver_id=nonsense\nenabled=false\nenabled=true";
    let parsed = Config::from_persisted_str(text, fixed_uuid());
    assert!(!parsed.debug());
    assert!(parsed.enabled());
    assert_eq!(parsed.server_id(), fixed_uuid());
}

#[test]
fn server_ids_are_read_in_every_usual_form() {
    let id = ServerId::parse("550e8400-e29b-41d4-a716-446655440000").expect("hyphenated");
    assert_eq!(ServerId::parse("550e8400e29b41d4a716446655440000"), Some(id));
    assert_eq!(ServerId::parse("{550E8400-E29B-41D4-A716-446655440000}"), Some(id));
    assert_eq!(ServerId::parse("urn:uuid:550e8400-e29b-41d4-a716-446655440000"), Some(id));
    assert_eq!(ServerId::parse("550e8400"), None);
    assert_eq!(id.text(), "550e8400-e29b-41d4-a716-446655440000");
    assert_eq!(ServerId::nil().text(), "00000000-0000-0000-0000-000000000000");
}

#[test]
fn random_server_ids_are_version_four() {
    let id = ServerId::random();
    let text = id.text();
    assert_eq!(text.len(), 36);
    assert_eq!(text.as_bytes()[14], b'4');
    assert!(matches!(text.as_bytes()[19], b'8' | b'9' | b'a' | b'b'));
    assert_eq!(ServerId::parse(&text), Some(id));
    assert!(ServerId::random() != id);
}
