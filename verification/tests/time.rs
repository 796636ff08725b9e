use tracing_ndjson::time::MAX_SECONDS;
use tracing_ndjson::{Timestamp, TimestampFormat, TypedValue};

#[test]
fn new_accepts_the_range() {
    assert!(Timestamp::new(0, 0).is_some());
    assert!(Timestamp::new(MAX_SECONDS, 999_999_999).is_some());
    assert!(Timestamp::new(-1, 0).is_none());
    assert!(Timestamp::new(MAX_SECONDS + 1, 0).is_none());
    assert!(Timestamp::new(0, 1_000_000_000).is_none());
    assert!(Timestamp::new(i64::MAX, 0).is_none());
    assert!(Timestamp::new(i64::MIN, u32::MAX).is_none());
}

#[test]
fn the_last_second_is_the_last_that_chrono_holds() {
    assert_eq!(chrono::DateTime::<chrono::Utc>::MAX_UTC.timestamp(), MAX_SECONDS);
    assert!(chrono::DateTime::from_timestamp(MAX_SECONDS, 999_999_999).is_some());
    assert!(chrono::DateTime::from_timestamp(MAX_SECONDS + 1, 0).is_none());
}

#[test]
fn parts() {
    let at = Timestamp::new(1_696_735_852, 123_456_789).unwrap();
    assert_eq!(at.seconds(), 1_696_735_852);
    assert_eq!(at.subsec_nanos(), 123_456_789);
    assert_eq!(at.milliseconds(), 1_696_735_852_123);
    let last = Timestamp::new(MAX_SECONDS, 999_999_999).unwrap();
    assert_eq!(last.milliseconds(), 8_210_266_876_799_999);
    assert_eq!(Timestamp::new(0, 999_999).unwrap().milliseconds(), 0);
    assert_eq!(Timestamp::new(0, 1_000_000).unwrap().milliseconds(), 1);
}

#[test]
fn rfc3339() {
    let at = Timestamp::new(1_696_735_852, 123_456_789).unwrap();
    assert_eq!(at.to_rfc3339(false), "2023-10-08T03:30:52Z");
    assert_eq!(at.to_rfc3339(true), "2023-10-08T03:30:52.123456789Z");
    let epoch = Timestamp::new(0, 0).unwrap();
    assert_eq!(epoch.to_rfc3339(false), "1970-01-01T00:00:00Z");
    assert_eq!(epoch.to_rfc3339(true), "1970-01-01T00:00:00.000000000Z");
    let last = Timestamp::new(MAX_SECONDS, 999_999_999).unwrap();
    assert_eq!(last.to_rfc3339(false), "+262142-12-31T23:59:59Z");
}

#[test]
fn patterns() {
    let at = Timestamp::new(1_696_735_852, 123_456_789).unwrap();
    assert_eq!(at.format("%Y-%m-%d").unwrap(), "2023-10-08");
    assert_eq!(at.format("%H:%M:%S%.3f").unwrap(), "03:30:52.123");
    assert_eq!(at.format("").unwrap(), "");
    assert_eq!(at.format("plain text").unwrap(), "plain text");
    assert_eq!(at.format("%s").unwrap(), "1696735852");
    assert!(at.format("%Q").is_none());
    assert!(at.format("%").is_none());
}

#[test]
fn now_is_now() {
    let before = std::time::SystemTime::now()
        .duration_since(std::time::UNIX_EPOCH)
        .unwrap()
        .as_secs();
    let now = Timestamp::now().unwrap();
    let after = std::time::SystemTime::now()
        .duration_since(std::time::UNIX_EPOCH)
        .unwrap()
        .as_secs();
    assert!(before <= now.seconds() && now.seconds() <= after);
    assert!(now.subsec_nanos() < 1_000_000_000);
}

#[test]
fn format_number_and_string() {
    let at = Timestamp::new(1_672_535_452, 123_000_000).unwrap();
    assert_eq!(TimestampFormat::Unix.format_number(&at), 1_672_535_452);
    assert_eq!(
        TimestampFormat::UnixMillis.format_number(&at),
        1_672_535_452_123
    );
    assert_eq!(TimestampFormat::Unix.format_string(&at).unwrap(), "1672535452");
    assert_eq!(
        TimestampFormat::UnixMillis.format_string(&at).unwrap(),
        "1672535452123"
    );
    assert_eq!(
        TimestampFormat::Rfc3339.format_string(&at).unwrap(),
        "2023-01-01T01:10:52Z"
    );
    assert_eq!(
        TimestampFormat::Rfc3339Nanos.format_string(&at).unwrap(),
        "2023-01-01T01:10:52.123000000Z"
    );
    assert_eq!(
        TimestampFormat::Custom("%j".to_string())
            .format_string(&at)
            .unwrap(),
        "001"
    );
    assert!(TimestampFormat::Custom("%!".to_string())
        .format_string(&at)
        .is_none());
}

#[test]
fn timestamp_values() {
    let at = Timestamp::new(1_672_535_452, 123_000_000).unwrap();
    assert!(matches!(
        TimestampFormat::Unix.timestamp_value(&at),
        Some(TypedValue::UInt128(1_672_535_452))
    ));
    assert!(matches!(
        TimestampFormat::UnixMillis.timestamp_value(&at),
        Some(TypedValue::UInt128(1_672_535_452_123))
    ));
    assert!(matches!(
        TimestampFormat::Rfc3339.timestamp_value(&at),
        Some(TypedValue::Str(s)) if s == "2023-01-01T01:10:52Z"
    ));
    assert!(matches!(
        TimestampFormat::Rfc3339Nanos.timestamp_value(&at),
        Some(TypedValue::Str(s)) if s == "2023-01-01T01:10:52.123000000Z"
    ));
    assert!(matches!(
        TimestampFormat::Custom("%Y".to_string()).timestamp_value(&at),
        Some(TypedValue::Str(s)) if s == "2023"
    ));
    assert!(TimestampFormat::Custom("%Q".to_string())
        .timestamp_value(&at)
        .is_none());
}

#[test]
fn timestamp_format_default_and_clone() {
    assert!(matches!(TimestampFormat::default(), TimestampFormat::Rfc3339));
    let custom = TimestampFormat::Custom("%H".to_string());
    assert!(matches!(custom.clone(), TimestampFormat::Custom(p) if p == "%H"));
    assert!(matches!(TimestampFormat::Unix.clone(), TimestampFormat::Unix));
}
