use node_rankings::dynamo_utils::{JsonMember, JsonValue};
use node_rankings::json_text::{to_json_text, write_json};

fn member(name: &str, value: JsonValue) -> JsonMember {
    JsonMember { name: name.to_string(), value }
}

#[test]
fn text_of_the_literals() {
    assert_eq!(to_json_text(&JsonValue::Null), "null");
    assert_eq!(to_json_text(&JsonValue::Bool(true)), "true");
    assert_eq!(to_json_text(&JsonValue::Bool(false)), "false");
}

#[test]
fn text_of_numbers() {
    assert_eq!(to_json_text(&JsonValue::Number(0)), "0");
    assert_eq!(to_json_text(&JsonValue::Number(255)), "255");
    assert_eq!(to_json_text(&JsonValue::Number(u64::MAX)), "18446744073709551615");
}

#[test]
fn text_of_a_string_is_quoted() {
    assert_eq!(to_json_text(&JsonValue::String("03c".to_string())), "\"03c\"");
    assert_eq!(to_json_text(&JsonValue::String(String::new())), "\"\"");
}

#[test]
fn text_of_a_string_is_escaped() {
    assert_eq!(to_json_text(&JsonValue::String("a\"b".to_string())), "\"a\\\"b\"");
    assert_eq!(to_json_text(&JsonValue::String("a\\b".to_string())), "\"a\\\\b\"");
    assert_eq!(to_json_text(&JsonValue::String("a\nb".to_string())), "\"a\\nb\"");
    assert_eq!(to_json_text(&JsonValue::String("\u{1}".to_string())), "\"\\u0001\"");
    assert_eq!(to_json_text(&JsonValue::String("\u{e9}".to_string())), "\"\u{e9}\"");
}

#[test]
fn text_of_a_string_agrees_with_serde_json() {
    for s in ["", "plain", "quote\"d", "tab\there", "ACINQ \u{26a1}", "back\\slash"] {
        let expected = serde_json::Value::String(s.to_string()).to_string();
        assert_eq!(to_json_text(&JsonValue::String(s.to_string())), expected);
    }
}

#[test]
fn text_of_arrays() {
    assert_eq!(to_json_text(&JsonValue::Array(vec![])), "[]");
    assert_eq!(to_json_text(&JsonValue::Array(vec![JsonValue::Number(1)])), "[1]");
    assert_eq!(
        to_json_text(&JsonValue::Array(vec![
            JsonValue::Number(1),
            JsonValue::Null,
            JsonValue::String("x".to_string()),
        ])),
        "[1,null,\"x\"]"
    );
}

#[test]
fn text_of_objects() {
    assert_eq!(to_json_text(&JsonValue::Object(vec![])), "{}");
    assert_eq!(
        to_json_text(&JsonValue::Object(vec![member("a", JsonValue::Bool(true))])),
        "{\"a\":true}"
    );
    assert_eq!(
        to_json_text(&JsonValue::Object(vec![
            member("b", JsonValue::Number(2)),
            member("a", JsonValue::Array(vec![JsonValue::Object(vec![])])),
        ])),
        "{\"b\":2,\"a\":[{}]}"
    );
}

#[test]
fn text_of_a_member_name_is_escaped() {
    assert_eq!(
        to_json_text(&JsonValue::Object(vec![member("a\"b", JsonValue::Null)])),
        "{\"a\\\"b\":null}"
    );
}

#[test]
fn write_json_appends() {
    let mut out = String::from("body=");
    write_json(&mut out, &JsonValue::Array(vec![JsonValue::Bool(false)]));
    assert_eq!(out, "body=[false]");
}

#[test]
fn text_parses_back_with_serde_json() {
    let value = JsonValue::Object(vec![
        member("public_key", JsonValue::String("03c".to_string())),
        member("bytes", JsonValue::Array(vec![JsonValue::Number(7), JsonValue::Number(8)])),
    ]);
    let parsed: serde_json::Value = serde_json::from_str(&to_json_text(&value)).unwrap();
    assert_eq!(parsed["public_key"], serde_json::Value::String("03c".to_string()));
    assert_eq!(parsed["bytes"][1], serde_json::Value::from(8u64));
}

#[test]
fn text_of_nested_values_agrees_with_serde_json() {
    let value = JsonValue::Array(vec![
        JsonValue::Object(vec![
            member("public_key", JsonValue::String("03c".to_string())),
            member("alias", JsonValue::String("Al\"ice\n".to_string())),
            member("bytes", JsonValue::Array(vec![JsonValue::Number(0), JsonValue::Number(255)])),
            member("flag", JsonValue::Bool(true)),
            member("nothing", JsonValue::Null),
        ]),
        JsonValue::Array(vec![]),
        JsonValue::Object(vec![]),
    ]);
    let mut object = serde_json::Map::new();
    object.insert("public_key".to_string(), serde_json::Value::String("03c".to_string()));
    object.insert("alias".to_string(), serde_json::Value::String("Al\"ice\n".to_string()));
    object.insert(
        "bytes".to_string(),
        serde_json::Value::Array(vec![
            serde_json::Value::from(0u64),
            serde_json::Value::from(255u64),
        ]),
    );
    object.insert("flag".to_string(), serde_json::Value::Bool(true));
    object.insert("nothing".to_string(), serde_json::Value::Null);
    let expected = serde_json::Value::Array(vec![
        serde_json::Value::Object(object),
        serde_json::Value::Array(vec![]),
        serde_json::Value::Object(serde_json::Map::new()),
    ]);
    assert_eq!(to_json_text(&value), expected.to_string());
}
