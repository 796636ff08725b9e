use tracing_ndjson::{builder, layer, Builder, Casing, TimestampFormat};

#[test]
fn builder_starts_from_the_defaults() {
    for layer in [builder().layer(), Builder::new().layer(), Builder::default().layer(), layer()] {
        assert_eq!(layer.level_name, "level");
        assert_eq!(layer.level_value_casing, Casing::Lowercase);
        assert_eq!(layer.message_name, "message");
        assert_eq!(layer.target_name, "target");
        assert_eq!(layer.timestamp_name, "timestamp");
        assert!(matches!(layer.timestamp_format, TimestampFormat::Rfc3339));
        assert!(!layer.line_numbers);
        assert!(!layer.file_names);
        assert!(layer.flatten_fields);
        assert!(layer.flatten_spans);
    }
}

#[test]
fn every_setter_sets_its_option() {
    let layer = builder()
        .with_level_name("severity")
        .with_level_value_casing(Casing::Uppercase)
        .with_message_name("msg")
        .with_target_name("source")
        .with_timestamp_name("ts")
        .with_timestamp_format(TimestampFormat::Custom("%s".to_string()))
        .with_flatten_fields(false)
        .with_flatten_spans(false)
        .with_line_numbers(true)
        .with_file_names(true)
        .layer();
    assert_eq!(layer.level_name, "severity");
    assert_eq!(layer.level_value_casing, Casing::Uppercase);
    assert_eq!(layer.message_name, "msg");
    assert_eq!(layer.target_name, "source");
    assert_eq!(layer.timestamp_name, "ts");
    assert!(matches!(layer.timestamp_format, TimestampFormat::Custom(p) if p == "%s"));
    assert!(!layer.flatten_fields);
    assert!(!layer.flatten_spans);
    assert!(layer.line_numbers);
    assert!(layer.file_names);
}

#[test]
fn a_setter_leaves_the_other_options() {
    let layer = builder().with_flatten_spans(false).layer();
    assert!(layer.flatten_fields);
    assert!(!layer.flatten_spans);
    assert_eq!(layer.level_name, "level");
    let layer = builder().with_line_numbers(true).layer();
    assert!(layer.line_numbers);
    assert!(!layer.file_names);
}

#[test]
fn the_last_value_set_stays_and_order_does_not_matter() {
    let one = builder()
        .with_level_name("a")
        .with_message_name("m")
        .with_level_name("b")
        .layer();
    let other = builder()
        .with_level_name("b")
        .with_message_name("m")
        .layer();
    assert_eq!(one.level_name, "b");
    assert_eq!(one.level_name, other.level_name);
    assert_eq!(one.message_name, other.message_name);
}

#[test]
fn casing_default_is_lowercase() {
    assert_eq!(Casing::default(), Casing::Lowercase);
}
