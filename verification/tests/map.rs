use tracing_ndjson::json::JsonMap;
use tracing_ndjson::map::OrderedMap;
use tracing_ndjson::{AttributeSet, Error, TypedValue};

#[test]
fn insert_get_and_overwrite() {
    let mut map: OrderedMap<String> = OrderedMap::new();
    assert!(map.is_empty());
    assert_eq!(map.position("a"), 0);
    map.insert("a".to_string(), "1".to_string());
    map.insert("b".to_string(), "2".to_string());
    map.insert("a".to_string(), "3".to_string());
    assert_eq!(map.len(), 2);
    assert_eq!(map.get("a"), Some(&"3".to_string()));
    assert_eq!(map.get("b"), Some(&"2".to_string()));
    assert_eq!(map.get("c"), None);
    assert_eq!(map.position("a"), 0);
    assert_eq!(map.position("b"), 1);
    assert_eq!(map.position("c"), 2);
    assert!(map.contains_key("b"));
    assert!(!map.contains_key("B"));
    assert_eq!(map.entry(0), Some(("a", &"3".to_string())));
    assert_eq!(map.entry(1), Some(("b", &"2".to_string())));
    assert_eq!(map.entry(2), None);
}

#[test]
fn names_differ_by_case_and_by_prefix() {
    let mut attrs = AttributeSet::new();
    attrs.insert("key".to_string(), TypedValue::Bool(true));
    attrs.insert("Key".to_string(), TypedValue::Bool(false));
    attrs.insert("ke".to_string(), TypedValue::Bool(false));
    attrs.insert("keys".to_string(), TypedValue::Bool(false));
    attrs.insert("".to_string(), TypedValue::Bool(false));
    assert_eq!(attrs.len(), 5);
    assert!(attrs.contains_key(""));
}

#[test]
fn clone_is_independent() {
    let mut attrs = AttributeSet::new();
    attrs.insert("a".to_string(), TypedValue::Str("x".to_string()));
    let copy = attrs.clone();
    attrs.insert("a".to_string(), TypedValue::Str("y".to_string()));
    assert!(matches!(copy.get("a"), Some(TypedValue::Str(s)) if s == "x"));
    assert!(matches!(attrs.get("a"), Some(TypedValue::Str(s)) if s == "y"));
}

#[test]
fn json_map_members() {
    let mut map = JsonMap::new();
    assert!(map.is_empty());
    assert_eq!(map.end(), "{}");
    map.insert_value("n", &TypedValue::Int128(-1)).unwrap();
    assert_eq!(map.end(), r#"{"n":-1}"#);
    let mut inner = JsonMap::new();
    inner.insert_value("k\"", &TypedValue::Str("v".to_string())).unwrap();
    map.insert_object("o", &inner);
    map.insert_array("a", &vec![]);
    map.insert_array("b", &vec![JsonMap::new(), inner]);
    assert_eq!(map.len(), 4);
    assert!(map.contains_key("o"));
    assert!(!map.contains_key("c"));
    assert_eq!(
        map.end(),
        r#"{"n":-1,"o":{"k\"":"v"},"a":[],"b":[{},{"k\"":"v"}]}"#
    );
    map.insert_value("o", &TypedValue::Bool(true)).unwrap();
    assert_eq!(
        map.end(),
        r#"{"n":-1,"o":true,"a":[],"b":[{},{"k\"":"v"}]}"#
    );
    let parsed: serde_json::Value = serde_json::from_str(&map.end()).unwrap();
    assert_eq!(parsed["b"][1]["k\""], "v");
}

#[test]
fn json_map_refuses_what_has_no_encoding() {
    let mut map = JsonMap::new();
    map.insert_value("a", &TypedValue::UInt128(1)).unwrap();
    assert_eq!(
        map.insert_value("a", &TypedValue::Float64("01".to_string())),
        Err(Error::Encoding)
    );
    assert_eq!(map.end(), r#"{"a":1}"#);
}
