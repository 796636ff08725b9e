//! The formatter with a single flattening switch, and the formatter of one
//! set of fields.

use vstd::prelude::*;
use crate::error::Error;
use crate::json::{is_json_line, object_text, JsonMap};
use crate::layer::{EventRecord, JsonFormattingLayer};
use crate::time::Timestamp;
use crate::value::AttributeSet;
use crate::visitor::{visit_all, visit_attrs};
use crate::{Casing, TimestampFormat};

verus! {

/// Formats events with the level in lower case and without file name or
/// line number. One switch, `flatten_fields`, decides for the attributes of
/// the event and for those of the scopes alike.
pub struct JsonEventFormatter {
    /// The name of the member that holds the level.
    pub level_name: &'static str,
    /// The name under which a field called `message` is written.
    pub message_name: &'static str,
    /// The name of the member that holds the target.
    pub target_name: &'static str,
    /// The name of the member that holds the timestamp.
    pub timestamp_name: &'static str,
    /// How the timestamp is written.
    pub timestamp_format: TimestampFormat,
    /// Whether attributes are members of the record itself; otherwise
    /// those of the event form the object under `fields` and those of the
    /// scopes the array under `spans`.
    pub flatten_fields: bool,
}

impl Default for JsonEventFormatter {
    fn default() -> (formatter: Self)
        ensures
            formatter.level_name@ == "level"@,
            formatter.message_name@ == "message"@,
            formatter.target_name@ == "target"@,
            formatter.timestamp_name@ == "timestamp"@,
            formatter.timestamp_format == TimestampFormat::Rfc3339,
            formatter.flatten_fields,
    {
        JsonEventFormatter {
            level_name: "level",
            message_name: "message",
            target_name: "target",
            timestamp_name: "timestamp",
            timestamp_format: TimestampFormat::Rfc3339,
            flatten_fields: true,
        }
    }
}

impl JsonEventFormatter {
    /// A formatter with the defaults.
    pub fn new() -> (formatter: Self)
        ensures
            formatter.level_name@ == "level"@,
            formatter.message_name@ == "message"@,
            formatter.target_name@ == "target"@,
            formatter.timestamp_name@ == "timestamp"@,
            formatter.timestamp_format == TimestampFormat::Rfc3339,
            formatter.flatten_fields,
    {
        Self::default()
    }

    /// Sets the name of the member that holds the level.
    pub fn with_level_name(self, level_name: &'static str) -> (formatter: Self)
        ensures
            formatter == (JsonEventFormatter { level_name, ..self }),
    {
        let mut next = self;
        next.level_name = level_name;
        next
    }

    /// Sets the name under which a field called `message` is written.
    pub fn with_message_name(self, message_name: &'static str) -> (formatter: Self)
        ensures
            formatter == (JsonEventFormatter { message_name, ..self }),
    {
        let mut next = self;
        next.message_name = message_name;
        next
    }

    /// Sets the name of the member that holds the target.
    pub fn with_target_name(self, target_name: &'static str) -> (formatter: Self)
        ensures
            formatter == (JsonEventFormatter { target_name, ..self }),
    {
        let mut next = self;
        next.target_name = target_name;
        next
    }

    /// Sets the name of the member that holds the timestamp.
    pub fn with_timestamp_name(self, timestamp_name: &'static str) -> (formatter: Self)
        ensures
            formatter == (JsonEventFormatter { timestamp_name, ..self }),
    {
        let mut next = self;
        next.timestamp_name = timestamp_name;
        next
    }

    /// Sets how the timestamp is written.
    pub fn with_timestamp_format(self, timestamp_format: TimestampFormat) -> (formatter: Self)
        ensures
            formatter == (JsonEventFormatter { timestamp_format, ..self }),
    {
        let mut next = self;
        next.timestamp_format = timestamp_format;
        next
    }

    /// Sets whether attributes are members of the record itself.
    pub fn with_flatten_fields(self, flatten_fields: bool) -> (formatter: Self)
        ensures
            formatter == (JsonEventFormatter { flatten_fields, ..self }),
    {
        let mut next = self;
        next.flatten_fields = flatten_fields;
        next
    }

    /// The configuration under which the general formatter writes what this
    /// one writes.
    pub open spec fn layer(self) -> JsonFormattingLayer {
        JsonFormattingLayer {
            level_name: self.level_name,
            level_value_casing: Casing::Lowercase,
            message_name: self.message_name,
            target_name: self.target_name,
            timestamp_name: self.timestamp_name,
            timestamp_format: self.timestamp_format,
            line_numbers: false,
            file_names: false,
            flatten_fields: self.flatten_fields,
            flatten_spans: self.flatten_fields,
        }
    }

    fn to_layer(&self) -> (layer: JsonFormattingLayer)
        ensures
            layer == self.layer(),
    {
        JsonFormattingLayer {
            level_name: self.level_name,
            level_value_casing: Casing::Lowercase,
            message_name: self.message_name,
            target_name: self.target_name,
            timestamp_name: self.timestamp_name,
            timestamp_format: self.timestamp_format.clone(),
            line_numbers: false,
            file_names: false,
            flatten_fields: self.flatten_fields,
            flatten_spans: self.flatten_fields,
        }
    }

    /// Formats `event` inside `chain` as of the instant `now`.
    pub fn format_event_at(
        &self,
        event: &EventRecord,
        chain: &Vec<AttributeSet>,
        now: &Timestamp,
    ) -> (line: Result<String, Error>)
        ensures
            match line {
                Ok(text) => self.layer().formatted(*event, chain@, *now) == Ok::<Seq<char>, Error>(
                    text@,
                ),
                Err(e) => self.layer().formatted(*event, chain@, *now) == Err::<Seq<char>, Error>(
                    e,
                ),
            },
            line matches Ok(text) ==> is_json_line(text@),
    {
        self.to_layer().format_at(event, chain, now)
    }

    /// Formats `event` inside `chain`. The timestamp is the time at which
    /// the call began, read once; where the clock gives no instant that a
    /// timestamp can hold, the result is `Error::Clock`.
    pub fn format_event(&self, event: &EventRecord, chain: &Vec<AttributeSet>) -> (line: Result<
        String,
        Error,
    >)
        ensures
            (line matches Err(e) && e == Error::Clock) || exists|now: Timestamp|
                now.valid() && match line {
                    Ok(text) => #[trigger] self.layer().formatted(*event, chain@, now) == Ok::<
                        Seq<char>,
                        Error,
                    >(text@),
                    Err(e) => self.layer().formatted(*event, chain@, now) == Err::<
                        Seq<char>,
                        Error,
                    >(e),
                },
            line matches Ok(text) ==> is_json_line(text@),
    {
        match Timestamp::now() {
            Some(now) => self.format_event_at(event, chain, &now),
            None => Err(Error::Clock),
        }
    }
}

/// Formats one set of fields as a JSON object, every field under its own
/// name.
pub struct FieldsFormatter {}

impl FieldsFormatter {
    pub fn new() -> (formatter: Self) {
        FieldsFormatter {  }
    }

    /// The JSON object that holds `fields`.
    pub fn format_fields(&self, fields: &AttributeSet) -> (text: Result<String, Error>)
        ensures
            match text {
                Ok(t) => match visit_all(Seq::empty(), fields@, None) {
                    Some(members) => t@ == object_text(members),
                    None => false,
                },
                Err(e) => e == Error::Encoding && visit_all(Seq::empty(), fields@, None) is None,
            },
    {
        let mut object = JsonMap::new();
        match visit_attrs(&mut object, fields, None) {
            Ok(_) => Ok(object.end()),
            Err(e) => Err(e),
        }
    }
}

impl Default for FieldsFormatter {
    fn default() -> (formatter: Self) {
        Self::new()
    }
}

} // verus!
