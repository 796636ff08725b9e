//! The formatter: from an event and its scope chain to one line of JSON.

use vstd::prelude::*;
use crate::error::Error;
use crate::json::{
    array_text, encode_value, is_json_line, object_text, object_texts, scalar_text, JsonMap,
    Members,
};
use crate::laws::lemma_record_is_json;
use crate::map::put;
use crate::text::{decimal, encode_string, encode_u128, json_string};
use crate::time::Timestamp;
use crate::value::{AttributeSet, TypedValue, Value};
use crate::visitor::{visit_all, visit_attrs};
use crate::{Casing, TimestampFormat};

verus! {

/// The severity of an event.
#[derive(Debug, Clone, Copy, PartialEq, Eq, Structural)]
pub enum Level {
    Trace,
    Debug,
    Info,
    Warn,
    Error,
}

impl Level {
    /// The name of the level in the given letter case.
    pub open spec fn text(self, casing: Casing) -> Seq<char> {
        match casing {
            Casing::Lowercase => match self {
                Level::Trace => "trace"@,
                Level::Debug => "debug"@,
                Level::Info => "info"@,
                Level::Warn => "warn"@,
                Level::Error => "error"@,
            },
            Casing::Uppercase => match self {
                Level::Trace => "TRACE"@,
                Level::Debug => "DEBUG"@,
                Level::Info => "INFO"@,
                Level::Warn => "WARN"@,
                Level::Error => "ERROR"@,
            },
        }
    }

    /// The name of the level in the given letter case.
    pub fn as_str(self, casing: Casing) -> (name: &'static str)
        ensures
            name@ == self.text(casing),
    {
        match casing {
            Casing::Lowercase => match self {
                Level::Trace => "trace",
                Level::Debug => "debug",
                Level::Info => "info",
                Level::Warn => "warn",
                Level::Error => "error",
            },
            Casing::Uppercase => match self {
                Level::Trace => "TRACE",
                Level::Debug => "DEBUG",
                Level::Info => "INFO",
                Level::Warn => "WARN",
                Level::Error => "ERROR",
            },
        }
    }
}

/// One event as the formatter sees it: its fixed metadata and its own
/// attributes.
pub struct EventRecord {
    /// The severity.
    pub level: Level,
    /// The name of the module or component that the event comes from.
    pub target: String,
    /// The source file, where it is known.
    pub file: Option<String>,
    /// The line in the source file, where it is known.
    pub line: Option<u32>,
    /// The attributes of the event itself.
    pub attrs: AttributeSet,
}

/// The attribute sets of a scope chain, root first.
pub open spec fn chain_view(chain: Seq<AttributeSet>) -> Seq<Seq<(Seq<char>, Value)>> {
    Seq::new(chain.len(), |i: int| chain[i]@)
}

/// `m` after every scope of `chain`, root first, has written its attributes
/// into it, or `None` when a value has no JSON encoding.
pub open spec fn flatten_chain(
    m: Members,
    chain: Seq<Seq<(Seq<char>, Value)>>,
    overwrite: Option<Seq<char>>,
) -> Option<Members>
    decreases chain.len(),
{
    if chain.len() == 0 {
        Some(m)
    } else {
        match flatten_chain(m, chain.drop_last(), overwrite) {
            Some(before) => visit_all(before, chain.last(), overwrite),
            None => None,
        }
    }
}

/// One object for each scope of `chain` that has attributes, root first, or
/// `None` when a value has no JSON encoding.
pub open spec fn span_objects(
    chain: Seq<Seq<(Seq<char>, Value)>>,
    overwrite: Option<Seq<char>>,
) -> Option<Seq<Members>>
    decreases chain.len(),
{
    if chain.len() == 0 {
        Some(Seq::empty())
    } else {
        match span_objects(chain.drop_last(), overwrite) {
            Some(before) => if chain.last().len() == 0 {
                Some(before)
            } else {
                match visit_all(Members::empty(), chain.last(), overwrite) {
                    Some(object) => Some(before.push(object)),
                    None => None,
                }
            },
            None => None,
        }
    }
}

/// The configuration of the formatter.
pub struct JsonFormattingLayer {
    /// The name of the member that holds the level.
    pub level_name: &'static str,
    /// The letter case of the level.
    pub level_value_casing: Casing,
    /// The name under which a field called `message` is written.
    pub message_name: &'static str,
    /// The name of the member that holds the target.
    pub target_name: &'static str,
    /// The name of the member that holds the timestamp.
    pub timestamp_name: &'static str,
    /// How the timestamp is written.
    pub timestamp_format: TimestampFormat,
    /// Whether the line number is written, where it is known.
    pub line_numbers: bool,
    /// Whether the file name is written, where it is known.
    pub file_names: bool,
    /// Whether the attributes of the event are members of the record
    /// itself; otherwise they form the object under `fields`.
    pub flatten_fields: bool,
    /// Whether the attributes of the scopes are members of the record
    /// itself; otherwise they form the array under `spans`.
    pub flatten_spans: bool,
}

impl Default for JsonFormattingLayer {
    fn default() -> (layer: Self)
        ensures
            layer.level_name@ == "level"@,
            layer.level_value_casing == Casing::Lowercase,
            layer.message_name@ == "message"@,
            layer.target_name@ == "target"@,
            layer.timestamp_name@ == "timestamp"@,
            layer.timestamp_format == TimestampFormat::Rfc3339,
            !layer.line_numbers,
            !layer.file_names,
            layer.flatten_fields,
            layer.flatten_spans,
    {
        JsonFormattingLayer {
            level_name: "level",
            level_value_casing: Casing::default(),
            message_name: "message",
            target_name: "target",
            timestamp_name: "timestamp",
            timestamp_format: TimestampFormat::default(),
            line_numbers: false,
            file_names: false,
            flatten_fields: true,
            flatten_spans: true,
        }
    }
}

impl JsonFormattingLayer {
    /// The name under which a field called `message` is written.
    pub open spec fn overwrite(&self) -> Option<Seq<char>> {
        Some(self.message_name@)
    }

    /// The members that hold the fixed metadata of `event`: the level, the
    /// timestamp with the JSON text `timestamp`, the target, and the file
    /// and the line where they are asked for and known.
    pub open spec fn metadata(&self, event: EventRecord, timestamp: Seq<char>) -> Members {
        let with_level = put(
            Members::empty(),
            self.level_name@,
            json_string(event.level.text(self.level_value_casing)),
        );
        let with_timestamp = put(with_level, self.timestamp_name@, timestamp);
        let with_target = put(with_timestamp, self.target_name@, json_string(event.target@));
        let with_file = if self.file_names && event.file is Some {
            put(with_target, "file"@, json_string(event.file->0@))
        } else {
            with_target
        };
        if self.line_numbers && event.line is Some {
            put(with_file, "line"@, decimal(event.line->0 as int))
        } else {
            with_file
        }
    }

    /// `m` with the attributes of the event: as members of `m` itself, or
    /// as the object under `fields`.
    pub open spec fn with_fields(&self, m: Members, attrs: Seq<(Seq<char>, Value)>) -> Option<
        Members,
    > {
        if self.flatten_fields {
            visit_all(m, attrs, self.overwrite())
        } else {
            match visit_all(Members::empty(), attrs, self.overwrite()) {
                Some(fields) => Some(put(m, "fields"@, object_text(fields))),
                None => None,
            }
        }
    }

    /// `m` with the attributes of the scopes: as members of `m` itself,
    /// deeper scopes written later, or as the array under `spans`, which is
    /// left out when no scope has attributes.
    pub open spec fn with_spans(&self, m: Members, chain: Seq<Seq<(Seq<char>, Value)>>) -> Option<
        Members,
    > {
        if self.flatten_spans {
            flatten_chain(m, chain, self.overwrite())
        } else {
            match span_objects(chain, self.overwrite()) {
                Some(objects) => if objects.len() == 0 {
                    Some(m)
                } else {
                    Some(put(m, "spans"@, array_text(object_texts(objects))))
                },
                None => None,
            }
        }
    }

    /// The members of the record for `event` inside `chain`, with
    /// `timestamp` as the value of the timestamp, or `None` when a value has
    /// no JSON encoding.
    pub open spec fn record(
        &self,
        event: EventRecord,
        chain: Seq<AttributeSet>,
        timestamp: Value,
    ) -> Option<Members> {
        match scalar_text(timestamp) {
            Some(text) => match self.with_fields(self.metadata(event, text), event.attrs@) {
                Some(with_fields) => self.with_spans(with_fields, chain_view(chain)),
                None => None,
            },
            None => None,
        }
    }

    /// The line written for a record: the text of the JSON object, then one
    /// newline.
    pub open spec fn line(members: Members) -> Seq<char> {
        object_text(members) + seq!['\n']
    }

    /// What formatting `event` inside `chain` at the instant `now` gives:
    /// the line of the record, `Error::Format` when the timestamp cannot be
    /// rendered, `Error::Encoding` when a value has no JSON encoding.
    pub open spec fn formatted(
        &self,
        event: EventRecord,
        chain: Seq<AttributeSet>,
        now: Timestamp,
    ) -> Result<Seq<char>, Error> {
        match self.timestamp_format.value(now) {
            Some(timestamp) => match self.record(event, chain, timestamp) {
                Some(members) => Ok(Self::line(members)),
                None => Err(Error::Encoding),
            },
            None => Err(Error::Format),
        }
    }

    /// Writes the fixed metadata of `event` into an empty object.
    fn write_metadata(&self, event: &EventRecord, timestamp: String) -> (root: JsonMap)
        ensures
            root@ == self.metadata(*event, timestamp@),
    {
        let mut root = JsonMap::new();
        root.insert_text(
            self.level_name,
            encode_string(event.level.as_str(self.level_value_casing)),
        );
        root.insert_text(self.timestamp_name, timestamp);
        root.insert_text(self.target_name, encode_string(event.target.as_str()));
        if self.file_names {
            if let Some(file) = &event.file {
                root.insert_text("file", encode_string(file.as_str()));
            }
        }
        if self.line_numbers {
            if let Some(line) = event.line {
                root.insert_text("line", encode_u128(line as u128));
            }
        }
        root
    }

    /// Writes the attributes of the scopes into `root`.
    fn write_spans(&self, root: &mut JsonMap, chain: &Vec<AttributeSet>) -> (done: Result<
        (),
        Error,
    >)
        ensures
            match done {
                Ok(_) => self.with_spans(old(root)@, chain_view(chain@)) == Some(final(root)@),
                Err(e) => e == Error::Encoding && self.with_spans(old(root)@, chain_view(chain@))
                    is None,
            },
    {
        let ghost scopes = chain_view(chain@);
        let ghost before = root@;
        let mut spans: Vec<JsonMap> = Vec::new();
        let mut i: usize = 0;
        while i < chain.len()
            invariant
                i <= chain@.len(),
                scopes == chain_view(chain@),
                before == old(root)@,
                self.flatten_spans ==> flatten_chain(before, scopes.take(i as int), self.overwrite())
                    == Some(root@),
                !self.flatten_spans ==> root@ == before && span_objects(
                    scopes.take(i as int),
                    self.overwrite(),
                ) == Some(spans@.map_values(|o: JsonMap| o@)),
            decreases chain@.len() - i,
        {
            proof {
                assert(scopes.take(i + 1).drop_last() =~= scopes.take(i as int));
                assert(scopes.take(i + 1).last() == chain@[i as int]@);
                if i + 1 <= scopes.len() {
                    lemma_chain_fails(before, scopes, self.overwrite(), i + 1);
                }
            }
            if self.flatten_spans {
                visit_attrs(root, &chain[i], Some(self.message_name))?;
            } else if !chain[i].is_empty() {
                let mut object = JsonMap::new();
                visit_attrs(&mut object, &chain[i], Some(self.message_name))?;
                let ghost objects = spans@.map_values(|o: JsonMap| o@);
                spans.push(object);
                assert(spans@.map_values(|o: JsonMap| o@) =~= objects.push(object@));
            }
            i += 1;
        }
        assert(scopes.take(i as int) =~= scopes);
        if !self.flatten_spans && spans.len() > 0 {
            root.insert_array("spans", &spans);
        }
        Ok(())
    }

    /// Formats `event` inside `chain` with `timestamp` as the value of the
    /// timestamp. `chain` holds the attributes of the scopes that the event
    /// fired in, root first.
    pub fn assemble(
        &self,
        event: &EventRecord,
        chain: &Vec<AttributeSet>,
        timestamp: &TypedValue,
    ) -> (line: Result<String, Error>)
        ensures
            match line {
                Ok(text) => match self.record(*event, chain@, timestamp@) {
                    Some(members) => text@ == Self::line(members),
                    None => false,
                },
                Err(e) => e == Error::Encoding && self.record(*event, chain@, timestamp@) is None,
            },
            line matches Ok(text) ==> is_json_line(text@),
    {
        let stamp = encode_value(timestamp)?;
        let mut root = self.write_metadata(event, stamp);
        if self.flatten_fields {
            visit_attrs(&mut root, &event.attrs, Some(self.message_name))?;
        } else {
            let mut fields = JsonMap::new();
            visit_attrs(&mut fields, &event.attrs, Some(self.message_name))?;
            root.insert_object("fields", &fields);
        }
        self.write_spans(&mut root, chain)?;
        let mut text = root.end();
        text.append("\n");
        proof {
            reveal_strlit("\n");
            lemma_record_is_json(*self, *event, chain@, timestamp@);
            let members = self.record(*event, chain@, timestamp@)->0;
            assert(text@ =~= object_text(members) + seq!['\n']);
        }
        Ok(text)
    }

    /// Formats `event` inside `chain` as of the instant `now`.
    pub fn format_at(
        &self,
        event: &EventRecord,
        chain: &Vec<AttributeSet>,
        now: &Timestamp,
    ) -> (line: Result<String, Error>)
        ensures
            match line {
                Ok(text) => self.formatted(*event, chain@, *now) == Ok::<Seq<char>, Error>(text@),
                Err(e) => self.formatted(*event, chain@, *now) == Err::<Seq<char>, Error>(e),
            },
            line matches Ok(text) ==> is_json_line(text@),
    {
        match self.timestamp_format.timestamp_value(now) {
            Some(timestamp) => self.assemble(event, chain, &timestamp),
            None => Err(Error::Format),
        }
    }

    /// Formats `event` inside `chain` from a reading of the clock: as of
    /// the instant that was read, or with `Error::Clock` where the clock gave
    /// none.
    pub fn format_reading(
        &self,
        event: &EventRecord,
        chain: &Vec<AttributeSet>,
        reading: Option<Timestamp>,
    ) -> (line: Result<String, Error>)
        ensures
            match reading {
                Some(now) => match line {
                    Ok(text) => self.formatted(*event, chain@, now) == Ok::<Seq<char>, Error>(
                        text@,
                    ),
                    Err(e) => self.formatted(*event, chain@, now) == Err::<Seq<char>, Error>(e),
                },
                None => line matches Err(e) && e == Error::Clock,
            },
            line matches Ok(text) ==> is_json_line(text@),
    {
        match reading {
            Some(now) => self.format_at(event, chain, &now),
            None => Err(Error::Clock),
        }
    }

    /// Formats `event` inside `chain`. The timestamp is the time at which
    /// the call began, read once; where the clock gives no instant that a
    /// timestamp can hold, the result is `Error::Clock`.
    pub fn format(&self, event: &EventRecord, chain: &Vec<AttributeSet>) -> (line: Result<
        String,
        Error,
    >)
        ensures
            (line matches Err(e) && e == Error::Clock) || exists|now: Timestamp|
                now.valid() && match line {
                    Ok(text) => #[trigger] self.formatted(*event, chain@, now) == Ok::<
                        Seq<char>,
                        Error,
                    >(text@),
                    Err(e) => self.formatted(*event, chain@, now) == Err::<Seq<char>, Error>(e),
                },
            line matches Ok(text) ==> is_json_line(text@),
    {
        let reading = Timestamp::now();
        self.format_reading(event, chain, reading)
    }
}

/// A prefix of the chain that cannot be written makes the whole chain fail.
pub proof fn lemma_chain_fails(
    m: Members,
    chain: Seq<Seq<(Seq<char>, Value)>>,
    overwrite: Option<Seq<char>>,
    n: int,
)
    requires
        0 <= n <= chain.len(),
    ensures
        flatten_chain(m, chain.take(n), overwrite) is None ==> flatten_chain(m, chain, overwrite)
            is None,
        span_objects(chain.take(n), overwrite) is None ==> span_objects(chain, overwrite) is None,
    decreases chain.len() - n,
{
    if n < chain.len() {
        assert(chain.take(n + 1).drop_last() =~= chain.take(n));
        lemma_chain_fails(m, chain, overwrite, n + 1);
    } else {
        assert(chain.take(n) =~= chain);
    }
}

} // verus!
