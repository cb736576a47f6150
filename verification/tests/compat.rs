use serde_json::Value;
use verwalter::compat::merge_vars;
use verwalter::json::{json_text_of, Json};

fn convert(v: &Value) -> Json {
    match v {
        Value::Null => Json::Null,
        Value::Bool(b) => Json::Bool(*b),
        Value::Number(n) => Json::Number(n.to_string()),
        Value::String(s) => Json::String(s.clone()),
        Value::Array(items) => Json::Array(items.iter().map(convert).collect()),
        Value::Object(map) => Json::Object(map.iter().map(|(k, v)| (k.clone(), convert(v))).collect()),
    }
}

fn parse_object(s: &str) -> Vec<(String, Json)> {
    let v: Value = serde_json::from_str(s).unwrap();
    match convert(&v) {
        Json::Object(entries) => entries,
        _ => panic!("not an object"),
    }
}

#[test]
fn test_merge_simple() {
    let a = parse_object(r#"{"lamp": "blue", "table": "green"}"#);
    let b = parse_object(r#"{"lamp": "yellow", "chair": "black"}"#);
    assert_eq!(
        Json::Object(merge_vars(&vec![&a, &b])),
        Json::Object(parse_object(r#"{"lamp": "yellow", "table": "green", "chair": "black"}"#))
    );
}

#[test]
fn test_merge_nested() {
    let a = parse_object(r#"{"a": {"lamp": "blue", "table": "green"}}"#);
    let b = parse_object(r#"{"a": {"lamp": "yellow", "chair": "black"}}"#);
    assert_eq!(
        Json::Object(merge_vars(&vec![&a, &b])),
        Json::Object(parse_object(r#"{"a": {"lamp": "yellow", "table": "green", "chair": "black"}}"#))
    );
}

#[test]
fn merge_keeps_keys_held_once() {
    let a = parse_object(r#"{"x": 1, "y": [1, 2]}"#);
    let b = parse_object(r#"{"z": null}"#);
    assert_eq!(
        Json::Object(merge_vars(&vec![&a, &b])),
        Json::Object(parse_object(r#"{"x": 1, "y": [1, 2], "z": null}"#))
    );
}

#[test]
fn merge_scalar_wins_over_later_objects() {
    // a key whose first value (in merge order) is not an object keeps it
    let a = parse_object(r#"{"k": "plain"}"#);
    let b = parse_object(r#"{"j": 1}"#);
    let c = parse_object(r#"{"k": {"inner": true}}"#);
    let merged = merge_vars(&vec![&a, &b, &c]);
    assert_eq!(merged.len(), 2);
    assert_eq!(merged[0].0, "j");
    assert_eq!(merged[1].0, "k");
}

#[test]
fn merge_of_nothing_is_empty() {
    let merged = merge_vars(&vec![]);
    assert!(merged.is_empty());
}

#[test]
fn merge_nested_objects_hold_every_key() {
    let a = parse_object(r#"{"a": {"x": 1}, "b": 2}"#);
    let b = parse_object(r#"{"a": {"y": 2}}"#);
    let c = parse_object(r#"{"a": {"z": 3, "x": 4}}"#);
    let merged = merge_vars(&vec![&a, &b, &c]);
    assert_eq!(merged.len(), 2);
    assert_eq!(merged[0].0, "a");
    match &merged[0].1 {
        Json::Object(e) => {
            let keys: Vec<&str> = e.iter().map(|(k, _)| k.as_str()).collect();
            assert_eq!(keys.len(), 3);
            assert!(keys.contains(&"x") && keys.contains(&"y") && keys.contains(&"z"));
        }
        _ => panic!("an object was expected"),
    }
}

#[test]
fn json_text_matches_serde_json_output() {
    let text = r#"{"z":[1,-2,3.25,1e300,true,false,null],"a":{"q":"tab\there \"quoted\" \\ \u0001 é ☃"},"m":[],"n":{}}"#;
    let v: Value = serde_json::from_str(text).unwrap();
    assert_eq!(json_text_of(&convert(&v)), v.to_string());
}
