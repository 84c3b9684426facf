use rogger::json::JsonValue;
use rogger::log_entry::LogEntry;

fn obj(fields: Vec<(&str, JsonValue)>) -> JsonValue {
    JsonValue::Obj(fields.into_iter().map(|(k, v)| (k.to_string(), v)).collect())
}

fn s(text: &str) -> JsonValue {
    JsonValue::Str(text.to_string())
}

#[test]
fn test_log_entry_new() {
    let payload = obj(vec![("key", s("value"))]);
    let entry = LogEntry::new(
        "test_service".to_string(),
        "info".to_string(),
        "test message".to_string(),
        obj(vec![("key", s("value"))]),
        None,
    );

    assert_eq!(entry.service_name, "test_service");
    assert_eq!(entry.level, "info");
    assert_eq!(entry.message, "test message");
    assert_eq!(entry.payload.to_text(), payload.to_text());
    assert!(entry.timestamp.len() > 0); // Timestamp should be set
}

#[test]
fn test_to_json_string() {
    let payload = obj(vec![("user", s("alice"))]);
    let entry = LogEntry::new(
        "service".to_string(),
        "error".to_string(),
        "error occurred".to_string(),
        payload,
        None,
    );

    let json_str = entry.to_json_string();
    let parsed: serde_json::Value = serde_json::from_str(&json_str).unwrap();

    assert_eq!(parsed["service_name"], "service");
    assert_eq!(parsed["level"], "error");
    assert_eq!(parsed["message"], "error occurred");
    assert_eq!(parsed["payload"]["user"], "alice");
    assert!(parsed["timestamp"].is_string());
}

#[test]
fn test_to_json_bytes() {
    let payload = obj(vec![("data", JsonValue::Int(123))]);
    let entry = LogEntry::new(
        "byte_service".to_string(),
        "debug".to_string(),
        "byte test".to_string(),
        payload,
        None,
    );

    let bytes = entry.to_json_bytes();
    let json_str = String::from_utf8(bytes).unwrap();
    let parsed: serde_json::Value = serde_json::from_str(&json_str).unwrap();

    assert_eq!(parsed["service_name"], "byte_service");
    assert_eq!(parsed["level"], "debug");
    assert_eq!(parsed["message"], "byte test");
    assert_eq!(parsed["payload"]["data"], 123);
}

#[test]
fn test_duration_absent_and_present() {
    let without = LogEntry::new(
        "svc".to_string(),
        "info".to_string(),
        "m".to_string(),
        JsonValue::Null,
        None,
    );
    let parsed: serde_json::Value = serde_json::from_str(&without.to_json_string()).unwrap();
    assert!(parsed.get("duration").is_none());

    let with = LogEntry::new(
        "svc".to_string(),
        "info".to_string(),
        "m".to_string(),
        JsonValue::Null,
        Some(250),
    );
    let parsed: serde_json::Value = serde_json::from_str(&with.to_json_string()).unwrap();
    assert_eq!(parsed["duration"], 250);
}

#[test]
fn test_round_trip_preserves_fields() {
    let entry = LogEntry::new(
        "rt_service".to_string(),
        "warn".to_string(),
        "spaced \"message\" with\nnewline".to_string(),
        obj(vec![
            ("items", JsonValue::Arr(vec![JsonValue::Int(-1), JsonValue::Bool(true), JsonValue::Null])),
            ("name", s("a\\b\tc\u{1}")),
        ]),
        None,
    );
    let parsed: serde_json::Value = serde_json::from_str(&entry.to_json_string()).unwrap();
    assert_eq!(parsed["service_name"], "rt_service");
    assert_eq!(parsed["level"], "warn");
    assert_eq!(parsed["message"], "spaced \"message\" with\nnewline");
    let expected: serde_json::Value =
        serde_json::from_str("{\"items\":[-1,true,null],\"name\":\"a\\\\b\\tc\\u0001\"}").unwrap();
    assert_eq!(parsed["payload"], expected);
}

#[test]
fn test_timestamp_is_rfc3339() {
    let entry = LogEntry::new(
        "ts".to_string(),
        "info".to_string(),
        "m".to_string(),
        JsonValue::Null,
        None,
    );
    assert!(chrono::DateTime::parse_from_rfc3339(&entry.timestamp).is_ok());
}

#[test]
fn test_json_value_texts() {
    assert_eq!(JsonValue::Null.to_text(), "null");
    assert_eq!(JsonValue::Bool(false).to_text(), "false");
    assert_eq!(JsonValue::Int(-42).to_text(), "-42");
    assert_eq!(JsonValue::Int(0).to_text(), "0");
    assert_eq!(JsonValue::Int(i64::MIN).to_text(), "-9223372036854775808");
    assert_eq!(s("a\"b\\c\nd\u{1}").to_text(), "\"a\\\"b\\\\c\\nd\\u0001\"");
    let v = obj(vec![("key", s("value")), ("n", JsonValue::Arr(vec![]))]);
    assert_eq!(v.to_text(), "{\"key\":\"value\",\"n\":[]}");
}

#[test]
fn test_empty_fields() {
    let entry = LogEntry::new(
        "".to_string(),
        "".to_string(),
        "".to_string(),
        JsonValue::Obj(vec![]),
        None,
    );
    let parsed: serde_json::Value = serde_json::from_str(&entry.to_json_string()).unwrap();
    assert_eq!(parsed["service_name"], "");
    assert_eq!(parsed["level"], "");
    assert_eq!(parsed["message"], "");
    assert!(parsed["payload"].as_object().unwrap().is_empty());
}
