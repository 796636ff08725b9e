use tracing_ndjson::json::encode_value;
use tracing_ndjson::text::{encode_i128, encode_u128, is_number, str_eq};
use tracing_ndjson::{Error, TypedValue};

#[test]
fn str_eq_compares_content() {
    assert!(str_eq("", ""));
    assert!(str_eq("message", "message"));
    assert!(!str_eq("message", "messagE"));
    assert!(!str_eq("message", "messages"));
    assert!(!str_eq("a", ""));
    assert!(str_eq("héllo", "héllo"));
    assert!(!str_eq("héllo", "hèllo"));
}

#[test]
fn integers_in_decimal() {
    assert_eq!(encode_u128(0), "0");
    assert_eq!(encode_u128(7), "7");
    assert_eq!(encode_u128(10), "10");
    assert_eq!(encode_u128(1_000_000), "1000000");
    assert_eq!(encode_u128(u64::MAX as u128), "18446744073709551615");
    assert_eq!(
        encode_u128(u128::MAX),
        "340282366920938463463374607431768211455"
    );
    assert_eq!(encode_i128(0), "0");
    assert_eq!(encode_i128(-1), "-1");
    assert_eq!(encode_i128(42), "42");
    assert_eq!(encode_i128(i64::MIN as i128), "-9223372036854775808");
    assert_eq!(
        encode_i128(i128::MIN),
        "-170141183460469231731687303715884105728"
    );
    assert_eq!(
        encode_i128(i128::MAX),
        "170141183460469231731687303715884105727"
    );
}

#[test]
fn integers_agree_with_serde_json() {
    for n in [0u128, 9, 10, 99, 100, 12345678901234567890, u128::MAX] {
        assert_eq!(encode_u128(n), serde_json::to_string(&n).unwrap());
    }
    for n in [0i128, -9, -10, 99, -100, i128::MIN, i128::MAX] {
        assert_eq!(encode_i128(n), serde_json::to_string(&n).unwrap());
    }
}

#[test]
fn number_literals() {
    for ok in [
        "0", "-0", "1", "10", "-12", "0.5", "1.25", "-3.0", "1e5", "1E5", "1e+5", "1e-5",
        "0e0", "12.5e-10", "1.7976931348623157e308", "5e-324",
    ] {
        assert!(is_number(ok), "{}", ok);
        assert!(serde_json::from_str::<serde_json::Value>(ok).unwrap().is_number());
    }
    for bad in [
        "", "-", "+1", "01", "-01", "1.", ".5", "1e", "1e+", "e5", "1.e5", "1 ", " 1", "1x",
        "NaN", "inf", "-inf", "Infinity", "null", "0x10", "1_000", "1.5.2", "1e5e5", "--1",
        "１",
    ] {
        assert!(!is_number(bad), "{}", bad);
    }
}

#[test]
fn floats_rendered_by_serde_json_are_number_literals() {
    for value in [0.0f64, -0.0, 1.5, -2e10, 1e21, 1e-7, f64::MAX, f64::MIN_POSITIVE, 0.1 + 0.2] {
        let literal = serde_json::to_string(&value).unwrap();
        assert!(is_number(&literal), "{}", literal);
        assert_eq!(
            encode_value(&TypedValue::Float64(literal.clone())).unwrap(),
            literal
        );
    }
}

#[test]
fn scalars() {
    assert_eq!(encode_value(&TypedValue::Bool(true)).unwrap(), "true");
    assert_eq!(encode_value(&TypedValue::Bool(false)).unwrap(), "false");
    assert_eq!(encode_value(&TypedValue::Int128(-7)).unwrap(), "-7");
    assert_eq!(encode_value(&TypedValue::UInt128(7)).unwrap(), "7");
    assert_eq!(
        encode_value(&TypedValue::Float64("2.50".to_string())).unwrap(),
        "2.50"
    );
    assert_eq!(
        encode_value(&TypedValue::Float64("two".to_string())),
        Err(Error::Encoding)
    );
    assert_eq!(
        encode_value(&TypedValue::Str("a\"b".to_string())).unwrap(),
        "\"a\\\"b\""
    );
    assert_eq!(
        encode_value(&TypedValue::RenderedError("e".to_string())).unwrap(),
        "\"e\""
    );
    assert_eq!(
        encode_value(&TypedValue::RenderedDebug("Foo { x: 1 }".to_string())).unwrap(),
        "\"Foo { x: 1 }\""
    );
}

#[test]
fn every_escape() {
    let raw = "\"\\\u{8}\u{c}\n\r\t\u{0}\u{1f}\u{7f}/é😀";
    assert_eq!(
        encode_value(&TypedValue::Str(raw.to_string())).unwrap(),
        "\"\\\"\\\\\\b\\f\\n\\r\\t\\u0000\\u001f\u{7f}/é😀\""
    );
    let all_controls: String = (0u8..0x20).map(|b| b as char).collect();
    assert_eq!(
        encode_value(&TypedValue::Str(all_controls)).unwrap(),
        "\"\\u0000\\u0001\\u0002\\u0003\\u0004\\u0005\\u0006\\u0007\\b\\t\\n\\u000b\\f\\r\\u000e\\u000f\\u0010\\u0011\\u0012\\u0013\\u0014\\u0015\\u0016\\u0017\\u0018\\u0019\\u001a\\u001b\\u001c\\u001d\\u001e\\u001f\""
    );
}

#[test]
fn typed_value_clone_keeps_the_value() {
    let values = vec![
        TypedValue::Float64("1.5".to_string()),
        TypedValue::Int128(-3),
        TypedValue::UInt128(3),
        TypedValue::Bool(true),
        TypedValue::Str("s".to_string()),
        TypedValue::RenderedError("e".to_string()),
        TypedValue::RenderedDebug("d".to_string()),
    ];
    for value in values {
        assert_eq!(format!("{:?}", value.clone()), format!("{:?}", value));
    }
}

fn expected_escape(c: char) -> String {
    match c {
        '"' => "\\\"".to_string(),
        '\\' => "\\\\".to_string(),
        '\u{8}' => "\\b".to_string(),
        '\u{c}' => "\\f".to_string(),
        '\n' => "\\n".to_string(),
        '\r' => "\\r".to_string(),
        '\t' => "\\t".to_string(),
        c if (c as u32) < 0x20 => format!("\\u{:04x}", c as u32),
        c => c.to_string(),
    }
}

#[test]
fn every_character_is_escaped_by_the_rule() {
    let mut code = 0u32;
    while code <= 0x10FFFF {
        if let Some(c) = char::from_u32(code) {
            let encoded = encode_value(&TypedValue::Str(c.to_string())).unwrap();
            assert_eq!(encoded, format!("\"{}\"", expected_escape(c)), "U+{:04X}", code);
        }
        code += if code < 0x3000 { 1 } else { 251 };
    }
    let mixed = "a\"b\\c\nd\u{1}e\u{7f}f\u{80}g\u{2028}h😀";
    let expected: String = mixed.chars().map(expected_escape).collect();
    assert_eq!(
        encode_value(&TypedValue::Str(mixed.to_string())).unwrap(),
        format!("\"{}\"", expected)
    );
}
