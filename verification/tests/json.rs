use faststats_rs::json::plain;
use faststats_rs::{JsonMap, JsonValue, Number};

fn read(text: &str) -> JsonValue {
    let tree: serde_json::Value = serde_json::from_str(text).expect("valid JSON");
    plain(&tree)
}

#[test]
fn scalars_are_read() {
    assert_eq!(read("null"), JsonValue::Null);
    assert_eq!(read("true"), JsonValue::Bool(true));
    assert_eq!(read("\"\\u00e9\""), JsonValue::string("\u{e9}"));
}

#[test]
fn numbers_keep_their_kind() {
    assert_eq!(read("7"), JsonValue::Number(Number::PosInt(7)));
    assert_eq!(read("18446744073709551615"), JsonValue::Number(Number::PosInt(u64::MAX)));
    assert_eq!(read("-7"), JsonValue::Number(Number::NegInt(-7)));
    assert_eq!(read("7.0"), JsonValue::Number(Number::Float(7.0_f64.to_bits())));
    assert_eq!(read("-0.0"), JsonValue::Number(Number::Float((-0.0_f64).to_bits())));
    assert!(read("7.0") != read("7"));
}

#[test]
fn nested_values_are_read() {
    let mut inner = JsonMap::new();
    inner.insert("sub-key1", JsonValue::string("value2"));
    let mut outer = JsonMap::new();
    outer.insert("key2", JsonValue::Object(inner));
    outer.insert(
        "key1",
        JsonValue::Array(vec![
            JsonValue::unsigned(1),
            JsonValue::Array(vec![]),
            JsonValue::Null,
        ]),
    );
    assert_eq!(
        read("{\"key1\": [1, [], null], \"key2\": {\"sub-key1\": \"value2\"}}"),
        JsonValue::Object(outer)
    );
}

#[test]
fn the_last_of_equal_keys_counts() {
    let mut map = JsonMap::new();
    map.insert("a", JsonValue::unsigned(2));
    assert_eq!(read("{\"a\": 1, \"a\": 2}"), JsonValue::Object(map));
}

#[test]
fn copies_of_values_are_equal() {
    let value = read("{\"a\": [1, {\"b\": [2.5, \"x\"]}], \"c\": false}");
    let copy = value.clone();
    assert_eq!(copy, value);
    assert!(copy.is_finite());
    assert!(read("[[1], [2]]") != read("[[1], [3]]"));
    assert!(read("{\"a\": 1}") != read("{\"b\": 1}"));
    assert!(read("[1]") != read("[1, 1]"));
}

#[test]
fn floats_compare_by_value() {
    let zero = read("{\"x\": [0.0]}");
    let negative = read("{\"x\": [-0.0]}");
    assert!(zero == negative);
    assert!(!zero.same(&negative));
    assert!(zero.same(&zero.clone()));
    assert!(read("0.0") != read("0"));
    assert!(Number::Float(0.0_f64.to_bits()) == Number::Float((-0.0_f64).to_bits()));
    assert!(Number::Float(f64::NAN.to_bits()) != Number::Float(f64::NAN.to_bits()));
    assert!(Number::PosInt(1) != Number::NegInt(1));
}
