use tracing_ndjson::json::JsonMap;
use tracing_ndjson::visitor::Visitor;
use tracing_ndjson::{Error, TypedValue};

#[test]
fn test_overwrite_message_name() {
    let mut serializer = JsonMap::new();
    let mut visitor = Visitor::new(&mut serializer, Some("msg"));

    let _ = visitor.serialize_entry("message", &TypedValue::Str("hello".to_string()));
    visitor.finish().unwrap();

    let result = serializer.end();
    assert_eq!(result, r#"{"msg":"hello"}"#);
}

#[test]
fn visitor_keeps_other_names() {
    let mut serializer = JsonMap::new();
    let mut visitor = Visitor::new(&mut serializer, Some("msg"));
    visitor.visit("life", &TypedValue::Int128(42));
    visitor.visit("messages", &TypedValue::Bool(true));
    visitor.finish().unwrap();
    assert_eq!(serializer.end(), r#"{"life":42,"messages":true}"#);
}

#[test]
fn visitor_without_overwrite_keeps_message() {
    let mut serializer = JsonMap::new();
    let mut visitor = Visitor::new(&mut serializer, None);
    visitor.visit("message", &TypedValue::Str("hello".to_string()));
    visitor.finish().unwrap();
    assert_eq!(serializer.end(), r#"{"message":"hello"}"#);
}

#[test]
fn visitor_stops_at_first_error() {
    let mut serializer = JsonMap::new();
    let mut visitor = Visitor::new(&mut serializer, Some("msg"));
    visitor.visit("a", &TypedValue::UInt128(1));
    visitor.visit("b", &TypedValue::Float64("NaN".to_string()));
    visitor.visit("c", &TypedValue::UInt128(3));
    assert_eq!(visitor.finish(), Err(Error::Encoding));
    assert_eq!(serializer.end(), r#"{"a":1}"#);
}

#[test]
fn serialize_entry_writes_whatever_the_state() {
    let mut serializer = JsonMap::new();
    let mut visitor = Visitor::new(&mut serializer, None);
    visitor.visit("bad", &TypedValue::Float64("inf".to_string()));
    assert_eq!(visitor.serialize_entry("x", &TypedValue::Bool(false)), Ok(()));
    assert_eq!(
        visitor.serialize_entry("y", &TypedValue::Float64("".to_string())),
        Err(Error::Encoding)
    );
    assert_eq!(visitor.finish(), Err(Error::Encoding));
    assert_eq!(serializer.end(), r#"{"x":false}"#);
}

#[test]
fn last_write_wins_in_place() {
    let mut serializer = JsonMap::new();
    let mut visitor = Visitor::new(&mut serializer, Some("msg"));
    visitor.visit("msg", &TypedValue::UInt128(1));
    visitor.visit("other", &TypedValue::UInt128(2));
    visitor.visit("message", &TypedValue::UInt128(3));
    visitor.finish().unwrap();
    assert_eq!(serializer.end(), r#"{"msg":3,"other":2}"#);
}
