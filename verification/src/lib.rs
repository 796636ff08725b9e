//! Structured events as newline-delimited JSON.
//!
//! An event carries a level, a target and attributes of its own, and fires
//! inside a chain of scopes that carry attributes too. One event becomes one
//! line: a JSON object that holds the level, the timestamp, the target and
//! the attributes of the event and of its scopes, under configurable names.
//!
//! ```text
//! {"level":"info","timestamp":"2023-10-08T03:30:52Z","target":"app::module","message":"Hello, world!","life":42}
//! ```
//!
//! The members are written in this order: level, timestamp, target, file
//! and line where they are asked for and known, the attributes of the event,
//! then those of the scopes from the root to the innermost. A name is
//! written once: a later write under the same name replaces the value and
//! keeps the place, so that an attribute of a scope overwrites an attribute
//! of the event, and either may overwrite the level, the timestamp or the
//! target.
//!
//! The host keeps one [`ScopeStore`] per open scope and hands the formatter
//! an [`EventRecord`] and the snapshots of the stores of the scopes that the
//! event fired in:
//!
//! ```text
//! let layer = tracing_ndjson::builder().with_message_name("msg").layer();
//! let scope = ScopeStore::create(vec![("request.uri".to_string(), TypedValue::Str(uri))]);
//! let line = layer.format(&event, &vec![scope.snapshot()])?;
//! ```
//!
//! Everything in this crate is verified with Verus, except for four calls
//! that are believed as documented: `serde_json` writes string literals, and
//! `chrono` reads the clock and renders timestamps.

pub mod error;
pub mod formatter;
pub mod json;
pub mod laws;
pub mod layer;
pub mod map;
pub mod storage;
pub mod text;
pub mod time;
pub mod value;
pub mod visitor;

pub use crate::error::Error;
pub use crate::formatter::{FieldsFormatter, JsonEventFormatter};
pub use crate::layer::{EventRecord, JsonFormattingLayer, Level};
pub use crate::storage::{scope_chain, ScopeStore};
pub use crate::time::Timestamp;
pub use crate::value::{AttributeSet, TypedValue};

use vstd::prelude::*;
use crate::text::{decimal, encode_u128};
use crate::time::{pattern_text, rfc3339_text};
use crate::value::Value;

verus! {

/// How the timestamp of an event is written. The default is `Rfc3339`.
#[derive(Debug)]
pub enum TimestampFormat {
    /// Seconds since the start of 1970, as a number.
    Unix,
    /// Milliseconds since the start of 1970, as a number.
    UnixMillis,
    /// RFC 3339 with whole seconds, as in `2023-10-08T03:30:52Z`.
    Rfc3339,
    /// RFC 3339 with nanoseconds, as in `2023-10-08T03:30:52.123456789Z`.
    Rfc3339Nanos,
    /// A `strftime` pattern.
    Custom(String),
}

impl Default for TimestampFormat {
    fn default() -> (format: Self)
        ensures
            format == TimestampFormat::Rfc3339,
    {
        TimestampFormat::Rfc3339
    }
}

impl Clone for TimestampFormat {
    fn clone(&self) -> (copy: Self)
        ensures
            copy == *self,
    {
        match self {
            TimestampFormat::Unix => TimestampFormat::Unix,
            TimestampFormat::UnixMillis => TimestampFormat::UnixMillis,
            TimestampFormat::Rfc3339 => TimestampFormat::Rfc3339,
            TimestampFormat::Rfc3339Nanos => TimestampFormat::Rfc3339Nanos,
            TimestampFormat::Custom(pattern) => TimestampFormat::Custom(pattern.clone()),
        }
    }
}

impl TimestampFormat {
    /// Whether the timestamp is written as a number.
    pub open spec fn is_numeric(&self) -> bool {
        self is Unix || self is UnixMillis
    }

    /// The number that stands for `at`: its seconds, or its milliseconds
    /// under `UnixMillis`.
    pub open spec fn number(&self, at: Timestamp) -> int {
        if self is UnixMillis {
            at.millis()
        } else {
            at.secs()
        }
    }

    /// The text that stands for `at`, or `None` when a custom pattern cannot
    /// be rendered.
    pub open spec fn string(&self, at: Timestamp) -> Option<Seq<char>> {
        match self {
            TimestampFormat::Unix => Some(decimal(at.secs())),
            TimestampFormat::UnixMillis => Some(decimal(at.millis())),
            TimestampFormat::Rfc3339 => Some(rfc3339_text(at.secs(), at.nanos(), false)),
            TimestampFormat::Rfc3339Nanos => Some(rfc3339_text(at.secs(), at.nanos(), true)),
            TimestampFormat::Custom(pattern) => pattern_text(at.secs(), at.nanos(), pattern@),
        }
    }

    /// The value written for the timestamp `at`: an unsigned integer under
    /// the numeric formats, a string under the others.
    pub open spec fn value(&self, at: Timestamp) -> Option<Value> {
        if self.is_numeric() {
            Some(Value::UInt128(self.number(at) as u128))
        } else {
            match self.string(at) {
                Some(text) => Some(Value::Str(text)),
                None => None,
            }
        }
    }

    /// The text that stands for `now`.
    pub fn format_string(&self, now: &Timestamp) -> (text: Option<String>)
        ensures
            match text {
                Some(t) => self.string(*now) == Some(t@),
                None => self.string(*now) is None,
            },
    {
        match self {
            TimestampFormat::Unix => Some(encode_u128(now.seconds() as u128)),
            TimestampFormat::UnixMillis => Some(encode_u128(now.milliseconds() as u128)),
            TimestampFormat::Rfc3339 => Some(now.to_rfc3339(false)),
            TimestampFormat::Rfc3339Nanos => Some(now.to_rfc3339(true)),
            TimestampFormat::Custom(pattern) => now.format(pattern.as_str()),
        }
    }

    /// The number that stands for `now`, under a numeric format.
    pub fn format_number(&self, now: &Timestamp) -> (number: u64)
        requires
            self.is_numeric(),
        ensures
            number == self.number(*now),
    {
        match self {
            TimestampFormat::UnixMillis => now.milliseconds(),
            _ => now.seconds(),
        }
    }

    /// The value written for the timestamp `now`.
    pub fn timestamp_value(&self, now: &Timestamp) -> (value: Option<TypedValue>)
        ensures
            match value {
                Some(v) => self.value(*now) == Some(v@),
                None => self.value(*now) is None,
            },
            self.is_numeric() ==> value is Some && value->0 is UInt128,
            !self.is_numeric() && value is Some ==> value->0 is Str,
    {
        match self {
            TimestampFormat::Unix => Some(TypedValue::UInt128(self.format_number(now) as u128)),
            TimestampFormat::UnixMillis => Some(
                TypedValue::UInt128(self.format_number(now) as u128),
            ),
            _ => match self.format_string(now) {
                Some(text) => Some(TypedValue::Str(text)),
                None => None,
            },
        }
    }
}

/// The letter case of the level.
#[derive(Debug, Clone, Copy, PartialEq, Eq, Structural)]
pub enum Casing {
    Lowercase,
    Uppercase,
}

impl Default for Casing {
    fn default() -> (casing: Self)
        ensures
            casing == Casing::Lowercase,
    {
        Casing::Lowercase
    }
}

/// Configures a [`JsonFormattingLayer`] step by step.
///
/// It starts from the defaults: the names `level`, `message`, `target` and
/// `timestamp`, the level in lower case, the timestamp as RFC 3339, no file
/// name, no line number, and both the attributes of the event and those of
/// the scopes as members of the record itself. Each setter changes one
/// option and leaves the others as they are.
pub struct Builder {
    layer: JsonFormattingLayer,
}

impl Builder {
    /// The configuration that the builder holds.
    pub closed spec fn config(self) -> JsonFormattingLayer {
        self.layer
    }

    /// A builder that holds the defaults.
    pub fn new() -> (builder: Self)
        ensures
            builder.config().level_name@ == "level"@,
            builder.config().level_value_casing == Casing::Lowercase,
            builder.config().message_name@ == "message"@,
            builder.config().target_name@ == "target"@,
            builder.config().timestamp_name@ == "timestamp"@,
            builder.config().timestamp_format == TimestampFormat::Rfc3339,
            !builder.config().line_numbers,
            !builder.config().file_names,
            builder.config().flatten_fields,
            builder.config().flatten_spans,
    {
        Builder { layer: JsonFormattingLayer::default() }
    }

    /// Sets the name of the member that holds the level.
    pub fn with_level_name(self, level_name: &'static str) -> (builder: Self)
        ensures
            builder.config() == (JsonFormattingLayer { level_name, ..self.config() }),
    {
        let mut next = self;
        next.layer.level_name = level_name;
        next
    }

    /// Sets the letter case of the level.
    pub fn with_level_value_casing(self, casing: Casing) -> (builder: Self)
        ensures
            builder.config() == (JsonFormattingLayer {
                level_value_casing: casing,
                ..self.config()
            }),
    {
        let mut next = self;
        next.layer.level_value_casing = casing;
        next
    }

    /// Sets the name under which a field called `message` is written.
    pub fn with_message_name(self, message_name: &'static str) -> (builder: Self)
        ensures
            builder.config() == (JsonFormattingLayer { message_name, ..self.config() }),
    {
        let mut next = self;
        next.layer.message_name = message_name;
        next
    }

    /// Sets the name of the member that holds the target.
    pub fn with_target_name(self, target_name: &'static str) -> (builder: Self)
        ensures
            builder.config() == (JsonFormattingLayer { target_name, ..self.config() }),
    {
        let mut next = self;
        next.layer.target_name = target_name;
        next
    }

    /// Sets the name of the member that holds the timestamp.
    pub fn with_timestamp_name(self, timestamp_name: &'static str) -> (builder: Self)
        ensures
            builder.config() == (JsonFormattingLayer { timestamp_name, ..self.config() }),
    {
        let mut next = self;
        next.layer.timestamp_name = timestamp_name;
        next
    }

    /// Sets how the timestamp is written.
    pub fn with_timestamp_format(self, timestamp_format: TimestampFormat) -> (builder: Self)
        ensures
            builder.config() == (JsonFormattingLayer { timestamp_format, ..self.config() }),
    {
        let mut next = self;
        next.layer.timestamp_format = timestamp_format;
        next
    }

    /// Sets whether the attributes of the event are members of the record
    /// itself; otherwise they form the object under `fields`.
    pub fn with_flatten_fields(self, flatten_fields: bool) -> (builder: Self)
        ensures
            builder.config() == (JsonFormattingLayer { flatten_fields, ..self.config() }),
    {
        let mut next = self;
        next.layer.flatten_fields = flatten_fields;
        next
    }

    /// Sets whether the attributes of the scopes are members of the record
    /// itself; otherwise they form the array under `spans`.
    pub fn with_flatten_spans(self, flatten_spans: bool) -> (builder: Self)
        ensures
            builder.config() == (JsonFormattingLayer { flatten_spans, ..self.config() }),
    {
        let mut next = self;
        next.layer.flatten_spans = flatten_spans;
        next
    }

    /// Sets whether the line number is written, where it is known.
    pub fn with_line_numbers(self, line_numbers: bool) -> (builder: Self)
        ensures
            builder.config() == (JsonFormattingLayer { line_numbers, ..self.config() }),
    {
        let mut next = self;
        next.layer.line_numbers = line_numbers;
        next
    }

    /// Sets whether the file name is written, where it is known.
    pub fn with_file_names(self, file_names: bool) -> (builder: Self)
        ensures
            builder.config() == (JsonFormattingLayer { file_names, ..self.config() }),
    {
        let mut next = self;
        next.layer.file_names = file_names;
        next
    }

    /// The formatter with the configuration that the builder holds.
    pub fn layer(self) -> (layer: JsonFormattingLayer)
        ensures
            layer == self.config(),
    {
        self.layer
    }
}

impl Default for Builder {
    fn default() -> (builder: Self)
        ensures
            builder.config().level_name@ == "level"@,
            builder.config().level_value_casing == Casing::Lowercase,
            builder.config().message_name@ == "message"@,
            builder.config().target_name@ == "target"@,
            builder.config().timestamp_name@ == "timestamp"@,
            builder.config().timestamp_format == TimestampFormat::Rfc3339,
            !builder.config().line_numbers,
            !builder.config().file_names,
            builder.config().flatten_fields,
            builder.config().flatten_spans,
    {
        Builder::new()
    }
}

/// A builder that holds the defaults.
pub fn builder() -> (builder: Builder)
    ensures
        builder.config().level_name@ == "level"@,
        builder.config().level_value_casing == Casing::Lowercase,
        builder.config().message_name@ == "message"@,
        builder.config().target_name@ == "target"@,
        builder.config().timestamp_name@ == "timestamp"@,
        builder.config().timestamp_format == TimestampFormat::Rfc3339,
        !builder.config().line_numbers,
        !builder.config().file_names,
        builder.config().flatten_fields,
        builder.config().flatten_spans,
{
    Builder::default()
}

/// The formatter with the default configuration.
pub fn layer() -> (layer: JsonFormattingLayer)
    ensures
        layer.level_name@ == "level"@,
        layer.level_value_casing == Casing::Lowercase,
        layer.message_name@ == "message"@,
        layer.target_name@ == "target"@,
        layer.timestamp_name@ == "timestamp"@,
        layer.timestamp_format == TimestampFormat::Rfc3339,
        !layer.line_numbers,
        !layer.file_names,
        layer.flatten_fields,
        layer.flatten_spans,
{
    crate::builder().layer()
}

} // verus!
