use filereduce::json::{normalize, Json};
use filereduce::text::blank;
use serde_json::Value;

fn text(s: &str) -> Json {
    Json::Text(s.to_string())
}

fn number(s: &str) -> Json {
    Json::Number(s.to_string())
}

fn object(members: Vec<(&str, Json)>) -> Json {
    Json::Object(members.into_iter().map(|(k, v)| (k.to_string(), v)).collect())
}

#[test]
fn null_members_are_left_out() {
    let input = object(vec![("sku", text("ITEM1")), ("qty", number("10")), ("null_field", Json::Null)]);
    let expected = object(vec![("sku", text("ITEM1")), ("qty", number("10"))]);
    assert_eq!(normalize(&input), expected);
}

#[test]
fn null_members_are_left_out_at_every_depth() {
    let input = object(vec![
        ("a", Json::Null),
        ("b", object(vec![("c", Json::Null), ("d", Json::Bool(false))])),
        (
            "e",
            Json::Array(vec![
                Json::Null,
                object(vec![("f", Json::Null)]),
                Json::Array(vec![object(vec![("g", Json::Null), ("h", number("1.5e3"))])]),
            ]),
        ),
        ("i", object(vec![("j", Json::Null)])),
    ]);
    let expected = object(vec![
        ("b", object(vec![("d", Json::Bool(false))])),
        (
            "e",
            Json::Array(vec![
                Json::Null,
                object(vec![]),
                Json::Array(vec![object(vec![("h", number("1.5e3"))])]),
            ]),
        ),
        ("i", object(vec![])),
    ]);
    assert_eq!(normalize(&input), expected);
    assert_eq!(normalize(&expected), expected);
}

#[test]
fn values_without_members_stay_as_they_are() {
    assert_eq!(normalize(&Json::Null), Json::Null);
    assert_eq!(normalize(&Json::Bool(true)), Json::Bool(true));
    assert_eq!(normalize(&number("-0.5")), number("-0.5"));
    assert_eq!(normalize(&text("null")), text("null"));
    assert_eq!(normalize(&Json::Array(vec![])), Json::Array(vec![]));
    assert_eq!(normalize(&Json::Array(vec![Json::Null, Json::Null])), Json::Array(vec![Json::Null, Json::Null]));
    assert_eq!(normalize(&object(vec![])), object(vec![]));
}

fn to_model(value: &Value) -> Json {
    match value {
        Value::Null => Json::Null,
        Value::Bool(b) => Json::Bool(*b),
        Value::Number(n) => Json::Number(n.to_string()),
        Value::String(s) => Json::Text(s.clone()),
        Value::Array(items) => Json::Array(items.iter().map(to_model).collect()),
        Value::Object(map) => {
            Json::Object(map.iter().map(|(k, v)| (k.clone(), to_model(v))).collect())
        }
    }
}

fn from_model(value: Json) -> Value {
    match value {
        Json::Null => Value::Null,
        Json::Bool(b) => Value::Bool(b),
        Json::Number(text) => serde_json::from_str(&text).unwrap(),
        Json::Text(s) => Value::String(s),
        Json::Array(items) => Value::Array(items.into_iter().map(from_model).collect()),
        Json::Object(members) => {
            Value::Object(members.into_iter().map(|(k, v)| (k, from_model(v))).collect())
        }
    }
}

fn normalize_json(value: &Value) -> String {
    serde_json::to_string(&from_model(normalize(&to_model(value)))).unwrap()
}

#[test]
fn test_process_json() {
    let json_input = r#"{"sku": "ITEM1", "qty": 10}
{"sku": "ITEM2", "qty": 20}"#;

    let mut output = String::new();
    for line in json_input.lines() {
        if blank(line) {
            continue;
        }
        let value: Value = serde_json::from_str(line).unwrap();
        output.push_str(&normalize_json(&value));
        output.push('\n');
    }

    let lines: Vec<&str> = output.lines().collect();
    assert_eq!(lines.len(), 2);
    assert_eq!(lines[0], r#"{"qty":10,"sku":"ITEM1"}"#);
    assert_eq!(lines[1], r#"{"qty":20,"sku":"ITEM2"}"#);
}

#[test]
fn test_normalize_json() {
    let mut members = serde_json::Map::new();
    members.insert("sku".to_string(), Value::String("ITEM1".to_string()));
    members.insert("qty".to_string(), Value::from(10));
    members.insert("null_field".to_string(), Value::Null);
    let input = Value::Object(members);

    let result = normalize_json(&input);
    let parsed: Value = serde_json::from_str(&result).unwrap();

    assert!(parsed.get("sku").is_some());
    assert!(parsed.get("qty").is_some());
    assert!(parsed.get("null_field").is_none());
}
