use chrono::Utc;
use tracing_ndjson::{
    AttributeSet, Error, EventRecord, FieldsFormatter, JsonEventFormatter, Level, ScopeStore,
    Timestamp, TimestampFormat, TypedValue,
};

fn hello_world(with_life: bool) -> EventRecord {
    let mut attrs = AttributeSet::new();
    attrs.insert(
        "message".to_string(),
        TypedValue::RenderedDebug("Hello, world!".to_string()),
    );
    if with_life {
        attrs.insert("life".to_string(), TypedValue::Int128(42));
    }
    EventRecord {
        level: Level::Info,
        target: "tracing_ndjson::formatter::tests".to_string(),
        file: None,
        line: None,
        attrs,
    }
}

#[test]
fn formatter_test_json_event_formatter() {
    let formatter = JsonEventFormatter::new();

    let content = formatter
        .format_event(&hello_world(true), &Vec::new())
        .unwrap();

    println!("{:?}", content);

    let obj: Option<serde_json::Value> = serde_json::from_str(&content).ok();
    assert!(matches!(obj, Some(serde_json::Value::Object(_))));
    let obj = obj.expect("matched object");
    assert_eq!(
        obj.get("level").unwrap(),
        &serde_json::Value::String("info".to_owned())
    );
    assert_eq!(
        obj.get("message").unwrap(),
        &serde_json::Value::String("Hello, world!".to_owned())
    );
    assert_eq!(
        obj.get("target").unwrap(),
        &serde_json::Value::String("tracing_ndjson::formatter::tests".to_owned())
    );
    assert_eq!(
        obj.get("life").unwrap(),
        &serde_json::Value::Number(serde_json::Number::from(42))
    );

    let timestamp = obj
        .get("timestamp")
        .unwrap()
        .as_str()
        .unwrap()
        .parse::<chrono::DateTime<Utc>>()
        .unwrap();
    assert!(timestamp > Utc::now() - chrono::Duration::seconds(1));
}

#[test]
fn test_json_event_formatter_span() {
    let formatter = JsonEventFormatter::new();
    let span = ScopeStore::create(vec![(
        "request.uri".to_string(),
        TypedValue::Str("https://example.com".to_string()),
    )]);

    let content = formatter
        .format_event(&hello_world(false), &vec![span.snapshot()])
        .unwrap();

    println!("{:?}", content);

    let obj: Option<serde_json::Value> = serde_json::from_str(&content).ok();
    assert!(matches!(obj, Some(serde_json::Value::Object(_))));
    let obj = obj.expect("matched object");
    assert_eq!(
        obj.get("level").unwrap(),
        &serde_json::Value::String("info".to_owned())
    );
    assert_eq!(
        obj.get("message").unwrap(),
        &serde_json::Value::String("Hello, world!".to_owned())
    );
    assert_eq!(
        obj.get("target").unwrap(),
        &serde_json::Value::String("tracing_ndjson::formatter::tests".to_owned())
    );
    assert_eq!(
        obj.get("request.uri").unwrap(),
        &serde_json::Value::String("https://example.com".to_owned())
    );

    let timestamp = obj
        .get("timestamp")
        .unwrap()
        .as_str()
        .unwrap()
        .parse::<chrono::DateTime<Utc>>()
        .unwrap();
    assert!(timestamp > Utc::now() - chrono::Duration::seconds(1));
}

#[test]
fn event_formatter_defaults() {
    let formatter = JsonEventFormatter::default();
    assert_eq!(formatter.level_name, "level");
    assert_eq!(formatter.message_name, "message");
    assert_eq!(formatter.target_name, "target");
    assert_eq!(formatter.timestamp_name, "timestamp");
    assert!(matches!(formatter.timestamp_format, TimestampFormat::Rfc3339));
    assert!(formatter.flatten_fields);
}

#[test]
fn event_formatter_setters_change_one_option_each() {
    let formatter = JsonEventFormatter::new()
        .with_level_name("severity")
        .with_message_name("msg")
        .with_target_name("source")
        .with_timestamp_name("ts")
        .with_timestamp_format(TimestampFormat::Unix)
        .with_flatten_fields(false);
    assert_eq!(formatter.level_name, "severity");
    assert_eq!(formatter.message_name, "msg");
    assert_eq!(formatter.target_name, "source");
    assert_eq!(formatter.timestamp_name, "ts");
    assert!(matches!(formatter.timestamp_format, TimestampFormat::Unix));
    assert!(!formatter.flatten_fields);
}

#[test]
fn event_formatter_exact_line() {
    let formatter = JsonEventFormatter::new();
    let now = Timestamp::new(1_696_735_852, 0).unwrap();
    let line = formatter
        .format_event_at(&hello_world(true), &Vec::new(), &now)
        .unwrap();
    assert_eq!(
        line,
        "{\"level\":\"info\",\"timestamp\":\"2023-10-08T03:30:52Z\",\"target\":\"tracing_ndjson::formatter::tests\",\"message\":\"Hello, world!\",\"life\":42}\n"
    );
}

#[test]
fn event_formatter_one_switch_nests_event_and_scopes() {
    let formatter = JsonEventFormatter::new()
        .with_flatten_fields(false)
        .with_message_name("msg")
        .with_timestamp_format(TimestampFormat::Unix);
    let now = Timestamp::new(7, 0).unwrap();
    let span = ScopeStore::create(vec![("a".to_string(), TypedValue::Bool(true))]);
    let line = formatter
        .format_event_at(&hello_world(false), &vec![span.snapshot()], &now)
        .unwrap();
    assert_eq!(
        line,
        "{\"level\":\"info\",\"timestamp\":7,\"target\":\"tracing_ndjson::formatter::tests\",\"fields\":{\"msg\":\"Hello, world!\"},\"spans\":[{\"a\":true}]}\n"
    );
}

#[test]
fn event_formatter_level_is_lower_case() {
    let formatter = JsonEventFormatter::new().with_timestamp_format(TimestampFormat::Unix);
    let now = Timestamp::new(0, 0).unwrap();
    let mut event = hello_world(false);
    event.level = Level::Warn;
    event.file = Some("src/main.rs".to_string());
    event.line = Some(3);
    let line = formatter.format_event_at(&event, &Vec::new(), &now).unwrap();
    assert_eq!(
        line,
        "{\"level\":\"warn\",\"timestamp\":0,\"target\":\"tracing_ndjson::formatter::tests\",\"message\":\"Hello, world!\"}\n"
    );
}

#[test]
fn event_formatter_reports_errors() {
    let now = Timestamp::new(0, 0).unwrap();
    let formatter =
        JsonEventFormatter::new().with_timestamp_format(TimestampFormat::Custom("%Q".to_string()));
    assert_eq!(
        formatter.format_event_at(&hello_world(true), &Vec::new(), &now),
        Err(Error::Format)
    );
    let mut event = hello_world(true);
    event
        .attrs
        .insert("ratio".to_string(), TypedValue::Float64("NaN".to_string()));
    assert_eq!(
        JsonEventFormatter::new().format_event_at(&event, &Vec::new(), &now),
        Err(Error::Encoding)
    );
}

#[test]
fn fields_formatter_writes_an_object() {
    let mut fields = AttributeSet::new();
    fields.insert("message".to_string(), TypedValue::Str("kept".to_string()));
    fields.insert("n".to_string(), TypedValue::UInt128(7));
    fields.insert("ok".to_string(), TypedValue::Bool(false));
    let text = FieldsFormatter::new().format_fields(&fields).unwrap();
    assert_eq!(text, r#"{"message":"kept","n":7,"ok":false}"#);
    assert_eq!(
        FieldsFormatter::default()
            .format_fields(&AttributeSet::new())
            .unwrap(),
        "{}"
    );
}

#[test]
fn fields_formatter_refuses_bad_float() {
    let mut fields = AttributeSet::new();
    fields.insert("x".to_string(), TypedValue::Float64("1.".to_string()));
    assert_eq!(
        FieldsFormatter::new().format_fields(&fields),
        Err(Error::Encoding)
    );
}
