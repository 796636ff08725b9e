//! What holds of every record that the formatter writes.

use vstd::prelude::*;
use crate::json::{
    all_values, array_text, is_flat_object, is_json_object, is_scalar_text, is_value_text,
    lemma_array_no_newline, lemma_object_no_newline, lemma_put_all_values,
    lemma_scalar_no_newline, object_text, object_texts, scalar_text, Members,
};
use crate::text::{decimal, is_number_literal, json_string, lemma_decimal_is_number, no_newline};
use crate::time::Timestamp;
use crate::TimestampFormat;
use crate::layer::{chain_view, flatten_chain, span_objects, EventRecord, JsonFormattingLayer};
use crate::map::{get, has_key, lemma_get_put, lemma_put_unique, put, unique_keys};
use crate::value::{AttributeSet, Value};
use crate::visitor::{
    lemma_visit_all_has_key, lemma_visit_all_keeps, lemma_visit_all_last_write,
    lemma_visit_all_renames_message, lemma_visit_all_unique, target_key, visit_all,
};

verus! {

/// Writing a chain of scopes keeps the names unique.
pub proof fn lemma_flatten_chain_unique(
    m: Members,
    chain: Seq<Seq<(Seq<char>, Value)>>,
    overwrite: Option<Seq<char>>,
)
    requires
        unique_keys(m),
        flatten_chain(m, chain, overwrite) is Some,
    ensures
        unique_keys(flatten_chain(m, chain, overwrite)->0),
    decreases chain.len(),
{
    if chain.len() > 0 {
        lemma_flatten_chain_unique(m, chain.drop_last(), overwrite);
        lemma_visit_all_unique(
            flatten_chain(m, chain.drop_last(), overwrite)->0,
            chain.last(),
            overwrite,
        );
    }
}

/// Writing a chain of scopes leaves a name alone that no scope writes.
pub proof fn lemma_flatten_chain_keeps(
    m: Members,
    chain: Seq<Seq<(Seq<char>, Value)>>,
    overwrite: Option<Seq<char>>,
    key: Seq<char>,
)
    requires
        flatten_chain(m, chain, overwrite) is Some,
        forall|s: int, k: int|
            0 <= s < chain.len() && 0 <= k < chain[s].len() ==> target_key(
                #[trigger] chain[s][k].0,
                overwrite,
            ) != key,
    ensures
        get(flatten_chain(m, chain, overwrite)->0, key) == get(m, key),
        has_key(flatten_chain(m, chain, overwrite)->0, key) == has_key(m, key),
    decreases chain.len(),
{
    if chain.len() > 0 {
        let rest = chain.drop_last();
        assert forall|s: int, k: int| 0 <= s < rest.len() && 0 <= k < rest[s].len() implies target_key(
            #[trigger] rest[s][k].0,
            overwrite,
        ) != key by {
            assert(rest[s] == chain[s]);
        }
        lemma_flatten_chain_keeps(m, rest, overwrite, key);
        let last = chain.len() - 1;
        assert forall|k: int| 0 <= k < chain.last().len() implies target_key(
            #[trigger] chain.last()[k].0,
            overwrite,
        ) != key by {
            assert(chain.last()[k] == chain[last][k]);
        }
        lemma_visit_all_keeps(flatten_chain(m, rest, overwrite)->0, chain.last(), overwrite, key);
    }
}

/// After a chain of scopes is written, a name holds the value that was
/// written under it last: by the deepest scope that writes it, and within
/// that scope by the last attribute that does.
pub proof fn lemma_flatten_chain_last_write(
    m: Members,
    chain: Seq<Seq<(Seq<char>, Value)>>,
    overwrite: Option<Seq<char>>,
    s: int,
    j: int,
)
    requires
        flatten_chain(m, chain, overwrite) is Some,
        0 <= s < chain.len(),
        0 <= j < chain[s].len(),
        forall|k: int|
            j < k < chain[s].len() ==> target_key(#[trigger] chain[s][k].0, overwrite)
                != target_key(chain[s][j].0, overwrite),
        forall|t: int, k: int|
            s < t < chain.len() && 0 <= k < chain[t].len() ==> target_key(
                #[trigger] chain[t][k].0,
                overwrite,
            ) != target_key(chain[s][j].0, overwrite),
    ensures
        get(flatten_chain(m, chain, overwrite)->0, target_key(chain[s][j].0, overwrite))
            == scalar_text(chain[s][j].1),
        scalar_text(chain[s][j].1) is Some,
    decreases chain.len(),
{
    let key = target_key(chain[s][j].0, overwrite);
    let rest = chain.drop_last();
    let before = flatten_chain(m, rest, overwrite)->0;
    let last = chain.len() - 1;
    if s == last {
        lemma_visit_all_last_write(before, chain.last(), overwrite, j);
    } else {
        assert(rest[s] == chain[s]);
        assert forall|t: int, k: int| s < t < rest.len() && 0 <= k < rest[t].len() implies target_key(
            #[trigger] rest[t][k].0,
            overwrite,
        ) != key by {
            assert(rest[t] == chain[t]);
        }
        lemma_flatten_chain_last_write(m, rest, overwrite, s, j);
        assert forall|k: int| 0 <= k < chain.last().len() implies target_key(
            #[trigger] chain.last()[k].0,
            overwrite,
        ) != key by {
            assert(chain.last()[k] == chain[last][k]);
        }
        lemma_visit_all_keeps(before, chain.last(), overwrite, key);
    }
}

/// The names of a record are unique.
pub proof fn lemma_record_unique(
    layer: JsonFormattingLayer,
    event: EventRecord,
    chain: Seq<AttributeSet>,
    timestamp: Value,
)
    requires
        layer.record(event, chain, timestamp) is Some,
    ensures
        unique_keys(layer.record(event, chain, timestamp)->0),
{
    let text = scalar_text(timestamp)->0;
    let meta = layer.metadata(event, text);
    lemma_metadata_unique(layer, event, text);
    let overwrite = layer.overwrite();
    if layer.flatten_fields {
        lemma_visit_all_unique(meta, event.attrs@, overwrite);
    } else {
        lemma_put_unique(
            meta,
            "fields"@,
            object_text(visit_all(Members::empty(), event.attrs@, overwrite)->0),
        );
    }
    let with_fields = layer.with_fields(meta, event.attrs@)->0;
    if layer.flatten_spans {
        lemma_flatten_chain_unique(with_fields, chain_view(chain), overwrite);
    } else {
        let objects = span_objects(chain_view(chain), overwrite)->0;
        lemma_put_unique(with_fields, "spans"@, array_text(object_texts(objects)));
    }
}

/// The names of the fixed metadata are unique.
pub proof fn lemma_metadata_unique(layer: JsonFormattingLayer, event: EventRecord, timestamp: Seq<char>)
    ensures
        unique_keys(layer.metadata(event, timestamp)),
{
    let level = crate::text::json_string(event.level.text(layer.level_value_casing));
    let with_level = put(Members::empty(), layer.level_name@, level);
    lemma_put_unique(Members::empty(), layer.level_name@, level);
    let with_timestamp = put(with_level, layer.timestamp_name@, timestamp);
    lemma_put_unique(with_level, layer.timestamp_name@, timestamp);
    let target = crate::text::json_string(event.target@);
    let with_target = put(with_timestamp, layer.target_name@, target);
    lemma_put_unique(with_timestamp, layer.target_name@, target);
    let with_file = if layer.file_names && event.file is Some {
        put(with_target, "file"@, crate::text::json_string(event.file->0@))
    } else {
        with_target
    };
    if layer.file_names && event.file is Some {
        lemma_put_unique(with_target, "file"@, crate::text::json_string(event.file->0@));
    }
    if layer.line_numbers && event.line is Some {
        lemma_put_unique(with_file, "line"@, crate::text::decimal(event.line->0 as int));
    }
}

/// Field precedence. With the attributes of the scopes written as members
/// of the record, a name that a scope writes holds the value of the deepest
/// scope that writes it, whatever the event, the fixed metadata or a
/// shallower scope wrote under that name: scopes are written after the
/// event, and a deeper scope after a shallower one.
///
/// `s` is the position of a scope in the chain and `j` that of an attribute
/// in it, such that no later attribute of that scope and no attribute of a
/// deeper scope is written under the same name.
pub proof fn lemma_deepest_scope_wins(
    layer: JsonFormattingLayer,
    event: EventRecord,
    chain: Seq<AttributeSet>,
    timestamp: Value,
    s: int,
    j: int,
)
    requires
        layer.flatten_spans,
        layer.record(event, chain, timestamp) is Some,
        0 <= s < chain.len(),
        0 <= j < chain[s]@.len(),
        forall|k: int|
            j < k < chain[s]@.len() ==> target_key(#[trigger] chain[s]@[k].0, layer.overwrite())
                != target_key(chain[s]@[j].0, layer.overwrite()),
        forall|t: int, k: int|
            s < t < chain.len() && 0 <= k < chain[t]@.len() ==> target_key(
                #[trigger] chain[t]@[k].0,
                layer.overwrite(),
            ) != target_key(chain[s]@[j].0, layer.overwrite()),
    ensures
        get(
            layer.record(event, chain, timestamp)->0,
            target_key(chain[s]@[j].0, layer.overwrite()),
        ) == scalar_text(chain[s]@[j].1),
        scalar_text(chain[s]@[j].1) is Some,
{
    let text = scalar_text(timestamp)->0;
    let with_fields = layer.with_fields(layer.metadata(event, text), event.attrs@)->0;
    let scopes = chain_view(chain);
    assert(scopes[s] == chain[s]@);
    assert forall|t: int, k: int| s < t < scopes.len() && 0 <= k < scopes[t].len() implies target_key(
        #[trigger] scopes[t][k].0,
        layer.overwrite(),
    ) != target_key(scopes[s][j].0, layer.overwrite()) by {
        assert(scopes[t] == chain[t]@);
    }
    lemma_flatten_chain_last_write(with_fields, scopes, layer.overwrite(), s, j);
}

/// With all attributes written as members of the record, an attribute of
/// the event stays in the record when no later attribute of the event and no
/// scope is written under its name.
pub proof fn lemma_event_field_stays(
    layer: JsonFormattingLayer,
    event: EventRecord,
    chain: Seq<AttributeSet>,
    timestamp: Value,
    j: int,
)
    requires
        layer.flatten_fields,
        layer.flatten_spans,
        layer.record(event, chain, timestamp) is Some,
        0 <= j < event.attrs@.len(),
        forall|k: int|
            j < k < event.attrs@.len() ==> target_key(#[trigger] event.attrs@[k].0, layer.overwrite())
                != target_key(event.attrs@[j].0, layer.overwrite()),
        forall|t: int, k: int|
            0 <= t < chain.len() && 0 <= k < chain[t]@.len() ==> target_key(
                #[trigger] chain[t]@[k].0,
                layer.overwrite(),
            ) != target_key(event.attrs@[j].0, layer.overwrite()),
    ensures
        get(
            layer.record(event, chain, timestamp)->0,
            target_key(event.attrs@[j].0, layer.overwrite()),
        ) == scalar_text(event.attrs@[j].1),
        scalar_text(event.attrs@[j].1) is Some,
{
    let text = scalar_text(timestamp)->0;
    let meta = layer.metadata(event, text);
    let key = target_key(event.attrs@[j].0, layer.overwrite());
    lemma_visit_all_last_write(meta, event.attrs@, layer.overwrite(), j);
    let with_fields = visit_all(meta, event.attrs@, layer.overwrite())->0;
    let scopes = chain_view(chain);
    assert forall|t: int, k: int| 0 <= t < scopes.len() && 0 <= k < scopes[t].len() implies target_key(
        #[trigger] scopes[t][k].0,
        layer.overwrite(),
    ) != key by {
        assert(scopes[t] == chain[t]@);
    }
    lemma_flatten_chain_keeps(with_fields, scopes, layer.overwrite(), key);
}

/// A visit keeps the names that are there.
pub proof fn lemma_visit_all_grows(
    m: Members,
    attrs: Seq<(Seq<char>, Value)>,
    overwrite: Option<Seq<char>>,
    key: Seq<char>,
)
    requires
        has_key(m, key),
        visit_all(m, attrs, overwrite) is Some,
    ensures
        has_key(visit_all(m, attrs, overwrite)->0, key),
    decreases attrs.len(),
{
    if attrs.len() > 0 {
        lemma_visit_all_grows(m, attrs.drop_last(), overwrite, key);
        lemma_get_put(
            visit_all(m, attrs.drop_last(), overwrite)->0,
            target_key(attrs.last().0, overwrite),
            scalar_text(attrs.last().1)->0,
            key,
        );
    }
}

/// Writing a chain of scopes keeps the names that are there.
pub proof fn lemma_flatten_chain_grows(
    m: Members,
    chain: Seq<Seq<(Seq<char>, Value)>>,
    overwrite: Option<Seq<char>>,
    key: Seq<char>,
)
    requires
        has_key(m, key),
        flatten_chain(m, chain, overwrite) is Some,
    ensures
        has_key(flatten_chain(m, chain, overwrite)->0, key),
    decreases chain.len(),
{
    if chain.len() > 0 {
        lemma_flatten_chain_grows(m, chain.drop_last(), overwrite, key);
        lemma_visit_all_grows(
            flatten_chain(m, chain.drop_last(), overwrite)->0,
            chain.last(),
            overwrite,
            key,
        );
    }
}

/// After a chain of scopes is written, the name that an attribute of a
/// scope was written under is present.
pub proof fn lemma_flatten_chain_has_key(
    m: Members,
    chain: Seq<Seq<(Seq<char>, Value)>>,
    overwrite: Option<Seq<char>>,
    s: int,
    j: int,
)
    requires
        flatten_chain(m, chain, overwrite) is Some,
        0 <= s < chain.len(),
        0 <= j < chain[s].len(),
    ensures
        has_key(flatten_chain(m, chain, overwrite)->0, target_key(chain[s][j].0, overwrite)),
    decreases chain.len(),
{
    let key = target_key(chain[s][j].0, overwrite);
    let rest = chain.drop_last();
    let before = flatten_chain(m, rest, overwrite)->0;
    if s == chain.len() - 1 {
        lemma_visit_all_has_key(before, chain.last(), overwrite, j);
    } else {
        assert(rest[s] == chain[s]);
        lemma_flatten_chain_has_key(m, rest, overwrite, s, j);
        lemma_visit_all_grows(before, chain.last(), overwrite, key);
    }
}

/// The fixed metadata is written under the three configured names and, at
/// most, under `file` and `line`.
pub proof fn lemma_metadata_names(
    layer: JsonFormattingLayer,
    event: EventRecord,
    timestamp: Seq<char>,
    key: Seq<char>,
)
    requires
        key != layer.level_name@,
        key != layer.timestamp_name@,
        key != layer.target_name@,
        key != "file"@,
        key != "line"@,
    ensures
        !has_key(layer.metadata(event, timestamp), key),
{
    let level = crate::text::json_string(event.level.text(layer.level_value_casing));
    let with_level = put(Members::empty(), layer.level_name@, level);
    lemma_get_put(Members::empty(), layer.level_name@, level, key);
    let with_timestamp = put(with_level, layer.timestamp_name@, timestamp);
    lemma_get_put(with_level, layer.timestamp_name@, timestamp, key);
    let target = crate::text::json_string(event.target@);
    let with_target = put(with_timestamp, layer.target_name@, target);
    lemma_get_put(with_timestamp, layer.target_name@, target, key);
    let with_file = if layer.file_names && event.file is Some {
        put(with_target, "file"@, crate::text::json_string(event.file->0@))
    } else {
        with_target
    };
    if layer.file_names && event.file is Some {
        lemma_get_put(with_target, "file"@, crate::text::json_string(event.file->0@), key);
    }
    if layer.line_numbers && event.line is Some {
        lemma_get_put(with_file, "line"@, crate::text::decimal(event.line->0 as int), key);
    }
}

/// Under a name other than `message`, no object of the `spans` array has a
/// member called `message`.
pub proof fn lemma_span_objects_rename_message(
    chain: Seq<Seq<(Seq<char>, Value)>>,
    name: Seq<char>,
)
    requires
        name != "message"@,
        span_objects(chain, Some(name)) is Some,
    ensures
        forall|i: int|
            0 <= i < span_objects(chain, Some(name))->0.len() ==> !has_key(
                #[trigger] span_objects(chain, Some(name))->0[i],
                "message"@,
            ),
    decreases chain.len(),
{
    if chain.len() > 0 {
        lemma_span_objects_rename_message(chain.drop_last(), name);
        if chain.last().len() > 0 {
            lemma_visit_all_renames_message(Members::empty(), chain.last(), name);
        }
    }
}

/// Message renaming. Where the configured message name is not `message`,
/// no member of the record is called `message`, nor is a member of the
/// object under `fields` or of an object under `spans`; and where an
/// attribute called `message` is written as a member of the record, the
/// record has a member under the configured name.
///
/// The names configured for the level, the timestamp and the target are
/// written as they are: the law speaks of configurations in which none of
/// them is `message`.
pub proof fn lemma_message_is_renamed(
    layer: JsonFormattingLayer,
    event: EventRecord,
    chain: Seq<AttributeSet>,
    timestamp: Value,
)
    requires
        layer.message_name@ != "message"@,
        layer.level_name@ != "message"@,
        layer.timestamp_name@ != "message"@,
        layer.target_name@ != "message"@,
        layer.record(event, chain, timestamp) is Some,
    ensures
        !has_key(layer.record(event, chain, timestamp)->0, "message"@),
        !layer.flatten_fields ==> !has_key(
            visit_all(Members::empty(), event.attrs@, layer.overwrite())->0,
            "message"@,
        ),
        !layer.flatten_spans ==> forall|i: int|
            0 <= i < span_objects(chain_view(chain), layer.overwrite())->0.len() ==> !has_key(
                #[trigger] span_objects(chain_view(chain), layer.overwrite())->0[i],
                "message"@,
            ),
        !layer.flatten_fields && (exists|j: int|
            0 <= j < event.attrs@.len() && #[trigger] event.attrs@[j].0 == "message"@) ==> has_key(
            visit_all(Members::empty(), event.attrs@, layer.overwrite())->0,
            layer.message_name@,
        ),
        layer.flatten_fields && (exists|j: int|
            0 <= j < event.attrs@.len() && #[trigger] event.attrs@[j].0 == "message"@) ==> has_key(
            layer.record(event, chain, timestamp)->0,
            layer.message_name@,
        ),
        layer.flatten_spans && (exists|s: int, j: int|
            0 <= s < chain.len() && 0 <= j < chain[s]@.len() && #[trigger] chain[s]@[j].0
                == "message"@) ==> has_key(
            layer.record(event, chain, timestamp)->0,
            layer.message_name@,
        ),
{
    reveal_strlit("message");
    reveal_strlit("file");
    reveal_strlit("line");
    reveal_strlit("fields");
    reveal_strlit("spans");
    let name = layer.message_name@;
    let overwrite = layer.overwrite();
    let text = scalar_text(timestamp)->0;
    let meta = layer.metadata(event, text);
    let scopes = chain_view(chain);
    assert("message"@ != "file"@) by {
        assert("message"@.len() != "file"@.len());
    }
    assert("message"@ != "line"@) by {
        assert("message"@.len() != "line"@.len());
    }
    assert("message"@ != "fields"@) by {
        assert("message"@.len() != "fields"@.len());
    }
    assert("message"@ != "spans"@) by {
        assert("message"@.len() != "spans"@.len());
    }
    lemma_metadata_names(layer, event, text, "message"@);
    let with_fields = layer.with_fields(meta, event.attrs@)->0;
    if layer.flatten_fields {
        lemma_visit_all_renames_message(meta, event.attrs@, name);
    } else {
        let fields = visit_all(Members::empty(), event.attrs@, overwrite)->0;
        lemma_visit_all_renames_message(Members::empty(), event.attrs@, name);
        lemma_get_put(meta, "fields"@, object_text(fields), "message"@);
    }
    let record = layer.record(event, chain, timestamp)->0;
    if layer.flatten_spans {
        assert forall|s: int, k: int| 0 <= s < scopes.len() && 0 <= k < scopes[s].len() implies target_key(
            #[trigger] scopes[s][k].0,
            overwrite,
        ) != "message"@ by {}
        lemma_flatten_chain_keeps(with_fields, scopes, overwrite, "message"@);
        if layer.flatten_fields && (exists|j: int|
            0 <= j < event.attrs@.len() && #[trigger] event.attrs@[j].0 == "message"@) {
            lemma_flatten_chain_grows(with_fields, scopes, overwrite, name);
        }
        if exists|s: int, j: int|
            0 <= s < chain.len() && 0 <= j < chain[s]@.len() && #[trigger] chain[s]@[j].0
                == "message"@ {
            let (s, j) = choose|s: int, j: int|
                0 <= s < chain.len() && 0 <= j < chain[s]@.len() && #[trigger] chain[s]@[j].0
                    == "message"@;
            assert(scopes[s] == chain[s]@);
            lemma_flatten_chain_has_key(with_fields, scopes, overwrite, s, j);
        }
    } else {
        let objects = span_objects(scopes, overwrite)->0;
        lemma_span_objects_rename_message(scopes, name);
        lemma_get_put(with_fields, "spans"@, array_text(object_texts(objects)), "message"@);
        lemma_get_put(with_fields, "spans"@, array_text(object_texts(objects)), name);
    }
}

/// A visit keeps what holds of every value, if it holds of the text of
/// every scalar.
pub proof fn lemma_visit_all_values(
    m: Members,
    attrs: Seq<(Seq<char>, Value)>,
    overwrite: Option<Seq<char>>,
    p: spec_fn(Seq<char>) -> bool,
)
    requires
        all_values(m, p),
        forall|v: Value| (#[trigger] scalar_text(v)) is Some ==> p(scalar_text(v)->0),
        visit_all(m, attrs, overwrite) is Some,
    ensures
        all_values(visit_all(m, attrs, overwrite)->0, p),
    decreases attrs.len(),
{
    if attrs.len() > 0 {
        lemma_visit_all_values(m, attrs.drop_last(), overwrite, p);
        lemma_put_all_values(
            visit_all(m, attrs.drop_last(), overwrite)->0,
            target_key(attrs.last().0, overwrite),
            scalar_text(attrs.last().1)->0,
            p,
        );
    }
}

/// Writing a chain of scopes keeps what holds of every value, if it holds
/// of the text of every scalar.
pub proof fn lemma_flatten_chain_values(
    m: Members,
    chain: Seq<Seq<(Seq<char>, Value)>>,
    overwrite: Option<Seq<char>>,
    p: spec_fn(Seq<char>) -> bool,
)
    requires
        all_values(m, p),
        forall|v: Value| (#[trigger] scalar_text(v)) is Some ==> p(scalar_text(v)->0),
        flatten_chain(m, chain, overwrite) is Some,
    ensures
        all_values(flatten_chain(m, chain, overwrite)->0, p),
    decreases chain.len(),
{
    if chain.len() > 0 {
        lemma_flatten_chain_values(m, chain.drop_last(), overwrite, p);
        lemma_visit_all_values(
            flatten_chain(m, chain.drop_last(), overwrite)->0,
            chain.last(),
            overwrite,
            p,
        );
    }
}

/// The object that a visit writes from nothing is an object of scalars
/// without a line feed in its text.
pub proof fn lemma_visited_object(attrs: Seq<(Seq<char>, Value)>, overwrite: Option<Seq<char>>)
    requires
        visit_all(Members::empty(), attrs, overwrite) is Some,
    ensures
        is_flat_object(visit_all(Members::empty(), attrs, overwrite)->0),
        no_newline(object_text(visit_all(Members::empty(), attrs, overwrite)->0)),
{
    let object = visit_all(Members::empty(), attrs, overwrite)->0;
    lemma_visit_all_unique(Members::empty(), attrs, overwrite);
    let scalar = |t: Seq<char>| is_scalar_text(t);
    lemma_visit_all_values(Members::empty(), attrs, overwrite, scalar);
    assert forall|i: int| 0 <= i < object.len() implies is_scalar_text(#[trigger] object[i].1) by {
        assert(scalar(object[i].1));
    }
    let plain = |t: Seq<char>| no_newline(t);
    assert forall|v: Value| (#[trigger] scalar_text(v)) is Some implies plain(
        scalar_text(v)->0,
    ) by {
        lemma_scalar_no_newline(v);
    }
    lemma_visit_all_values(Members::empty(), attrs, overwrite, plain);
    lemma_object_no_newline(object);
}

/// The objects of the `spans` array are objects of scalars without a line
/// feed in their text.
pub proof fn lemma_span_objects_flat(
    chain: Seq<Seq<(Seq<char>, Value)>>,
    overwrite: Option<Seq<char>>,
)
    requires
        span_objects(chain, overwrite) is Some,
    ensures
        forall|i: int|
            0 <= i < span_objects(chain, overwrite)->0.len() ==> is_flat_object(
                #[trigger] span_objects(chain, overwrite)->0[i],
            ),
        forall|i: int|
            0 <= i < span_objects(chain, overwrite)->0.len() ==> no_newline(
                #[trigger] object_texts(span_objects(chain, overwrite)->0)[i],
            ),
    decreases chain.len(),
{
    if chain.len() > 0 {
        lemma_span_objects_flat(chain.drop_last(), overwrite);
        let before = span_objects(chain.drop_last(), overwrite)->0;
        let objects = span_objects(chain, overwrite)->0;
        if chain.last().len() > 0 {
            lemma_visited_object(chain.last(), overwrite);
        }
        assert forall|i: int| 0 <= i < objects.len() implies no_newline(
            #[trigger] object_texts(objects)[i],
        ) by {
            if i < before.len() {
                assert(object_texts(objects)[i] == object_texts(before)[i]);
            }
        }
    }
}

/// Validity. The members of a record are those of a JSON object: no name
/// occurs twice, and the value of each member is the text of a scalar, of
/// an object of scalars, or of an array of objects of scalars. The line
/// written for the record, the text of that object and a line feed, holds
/// no other line feed.
pub proof fn lemma_record_is_json(
    layer: JsonFormattingLayer,
    event: EventRecord,
    chain: Seq<AttributeSet>,
    timestamp: Value,
)
    requires
        layer.record(event, chain, timestamp) is Some,
    ensures
        is_json_object(layer.record(event, chain, timestamp)->0),
        no_newline(object_text(layer.record(event, chain, timestamp)->0)),
        ({
            let line = JsonFormattingLayer::line(layer.record(event, chain, timestamp)->0);
            &&& line.len() >= 3
            &&& line.last() == '\n'
            &&& forall|i: int| 0 <= i < line.len() - 1 ==> line[i] != '\n'
        }),
{
    let record = layer.record(event, chain, timestamp)->0;
    lemma_record_unique(layer, event, chain, timestamp);
    let json = |t: Seq<char>| is_value_text(t);
    let plain = |t: Seq<char>| no_newline(t);
    assert forall|v: Value| (#[trigger] scalar_text(v)) is Some implies json(
        scalar_text(v)->0,
    ) && plain(scalar_text(v)->0) by {
        lemma_scalar_no_newline(v);
        assert(is_scalar_text(scalar_text(v)->0));
    }
    lemma_record_values(layer, event, chain, timestamp, json);
    lemma_record_values(layer, event, chain, timestamp, plain);
    assert forall|i: int| 0 <= i < record.len() implies is_value_text(#[trigger] record[i].1) by {
        assert(json(record[i].1));
    }
    lemma_object_no_newline(record);
    let line = JsonFormattingLayer::line(record);
    assert forall|i: int| 0 <= i < line.len() - 1 implies line[i] != '\n' by {
        assert(line[i] == object_text(record)[i]);
    }
}

/// What holds of the text of every scalar, of every object of scalars and
/// of every array of such objects holds of every value of a record.
proof fn lemma_record_values(
    layer: JsonFormattingLayer,
    event: EventRecord,
    chain: Seq<AttributeSet>,
    timestamp: Value,
    p: spec_fn(Seq<char>) -> bool,
)
    requires
        layer.record(event, chain, timestamp) is Some,
        forall|v: Value| (#[trigger] scalar_text(v)) is Some ==> p(scalar_text(v)->0),
        forall|m: Members|
            is_flat_object(m) && no_newline(#[trigger] object_text(m)) ==> p(object_text(m)),
        forall|objects: Seq<Members>|
            (forall|i: int| 0 <= i < objects.len() ==> is_flat_object(#[trigger] objects[i]))
                && no_newline(#[trigger] array_text(object_texts(objects))) ==> p(
                array_text(object_texts(objects)),
            ),
    ensures
        all_values(layer.record(event, chain, timestamp)->0, p),
{
    let overwrite = layer.overwrite();
    let text = scalar_text(timestamp)->0;
    let scopes = chain_view(chain);
    // the fixed metadata
    let level = Value::Str(event.level.text(layer.level_value_casing));
    let level_text = scalar_text(level)->0;
    let with_level = put(Members::empty(), layer.level_name@, level_text);
    lemma_put_all_values(Members::empty(), layer.level_name@, level_text, p);
    let with_timestamp = put(with_level, layer.timestamp_name@, text);
    lemma_put_all_values(with_level, layer.timestamp_name@, text, p);
    let target_text = scalar_text(Value::Str(event.target@))->0;
    let with_target = put(with_timestamp, layer.target_name@, target_text);
    lemma_put_all_values(with_timestamp, layer.target_name@, target_text, p);
    let with_file = if layer.file_names && event.file is Some {
        put(with_target, "file"@, crate::text::json_string(event.file->0@))
    } else {
        with_target
    };
    if layer.file_names && event.file is Some {
        let file_text = scalar_text(Value::Str(event.file->0@))->0;
        lemma_put_all_values(with_target, "file"@, file_text, p);
    }
    if layer.line_numbers && event.line is Some {
        let line_text = scalar_text(Value::UInt128(event.line->0 as u128))->0;
        lemma_put_all_values(with_file, "line"@, line_text, p);
    }
    let meta = layer.metadata(event, text);
    assert(all_values(meta, p));
    // the attributes of the event
    if layer.flatten_fields {
        lemma_visit_all_values(meta, event.attrs@, overwrite, p);
    } else {
        lemma_visited_object(event.attrs@, overwrite);
        let fields = visit_all(Members::empty(), event.attrs@, overwrite)->0;
        lemma_put_all_values(meta, "fields"@, object_text(fields), p);
    }
    let with_fields = layer.with_fields(meta, event.attrs@)->0;
    // the attributes of the scopes
    if layer.flatten_spans {
        lemma_flatten_chain_values(with_fields, scopes, overwrite, p);
    } else {
        let objects = span_objects(scopes, overwrite)->0;
        lemma_span_objects_flat(scopes, overwrite);
        if objects.len() > 0 {
            lemma_array_no_newline(object_texts(objects));
            lemma_put_all_values(with_fields, "spans"@, array_text(object_texts(objects)), p);
        }
    }
}

/// The scopes of a chain that have attributes, root first.
pub open spec fn scopes_with_attributes(chain: Seq<Seq<(Seq<char>, Value)>>) -> Seq<
    Seq<(Seq<char>, Value)>,
> {
    chain.filter(|scope: Seq<(Seq<char>, Value)>| scope.len() > 0)
}

/// The objects of the `spans` array are those of the scopes that have
/// attributes, in the order of the chain.
pub proof fn lemma_span_objects_in_order(
    chain: Seq<Seq<(Seq<char>, Value)>>,
    overwrite: Option<Seq<char>>,
)
    requires
        span_objects(chain, overwrite) is Some,
    ensures
        span_objects(chain, overwrite)->0.len() == scopes_with_attributes(chain).len(),
        forall|i: int|
            0 <= i < scopes_with_attributes(chain).len() ==> visit_all(
                Members::empty(),
                #[trigger] scopes_with_attributes(chain)[i],
                overwrite,
            ) == Some(span_objects(chain, overwrite)->0[i]),
    decreases chain.len(),
{
    reveal(Seq::filter);
    if chain.len() > 0 {
        lemma_span_objects_in_order(chain.drop_last(), overwrite);
        let kept = scopes_with_attributes(chain);
        let before = scopes_with_attributes(chain.drop_last());
        assert forall|i: int| 0 <= i < kept.len() implies visit_all(
            Members::empty(),
            #[trigger] kept[i],
            overwrite,
        ) == Some(span_objects(chain, overwrite)->0[i]) by {
            if i < before.len() {
                assert(kept[i] == before[i]);
            }
        }
    }
}

/// Nested mode. With neither the attributes of the event nor those of the
/// scopes written as members of the record, the record has a member
/// `fields` that holds the object of the attributes of the event: every
/// attribute has a member in it, with its value unless a later attribute is
/// written under the same name, and the object is `{}` where the event has
/// no attributes. Where a scope has attributes, the record has a member
/// `spans` that holds the array of the objects of the scopes that have
/// attributes, root first. Where no scope has attributes the record has no
/// member `spans`, unless the level, the timestamp or the target is
/// configured to be written under that name.
pub proof fn lemma_nested_mode(
    layer: JsonFormattingLayer,
    event: EventRecord,
    chain: Seq<AttributeSet>,
    timestamp: Value,
)
    requires
        !layer.flatten_fields,
        !layer.flatten_spans,
        layer.record(event, chain, timestamp) is Some,
    ensures
        visit_all(Members::empty(), event.attrs@, layer.overwrite()) is Some,
        span_objects(chain_view(chain), layer.overwrite()) is Some,
        ({
            let record = layer.record(event, chain, timestamp)->0;
            let fields = visit_all(Members::empty(), event.attrs@, layer.overwrite())->0;
            let objects = span_objects(chain_view(chain), layer.overwrite())->0;
            let scopes = scopes_with_attributes(chain_view(chain));
            &&& get(record, "fields"@) == Some(object_text(fields))
            &&& forall|j: int|
                0 <= j < event.attrs@.len() ==> has_key(
                    fields,
                    target_key(#[trigger] event.attrs@[j].0, layer.overwrite()),
                )
            &&& forall|j: int|
                0 <= j < event.attrs@.len() && (forall|k: int|
                    j < k < event.attrs@.len() ==> target_key(
                        #[trigger] event.attrs@[k].0,
                        layer.overwrite(),
                    ) != target_key(event.attrs@[j].0, layer.overwrite())) ==> get(
                    fields,
                    target_key(#[trigger] event.attrs@[j].0, layer.overwrite()),
                ) == scalar_text(event.attrs@[j].1)
            &&& event.attrs@.len() == 0 ==> get(record, "fields"@) == Some("{}"@)
            &&& objects.len() == scopes.len()
            &&& forall|i: int|
                0 <= i < scopes.len() ==> visit_all(
                    Members::empty(),
                    #[trigger] scopes[i],
                    layer.overwrite(),
                ) == Some(objects[i])
            &&& scopes.len() > 0 ==> get(record, "spans"@) == Some(
                array_text(object_texts(objects)),
            )
            &&& scopes.len() == 0 && layer.level_name@ != "spans"@ && layer.timestamp_name@
                != "spans"@ && layer.target_name@ != "spans"@ ==> !has_key(record, "spans"@)
        }),
{
    reveal_strlit("file");
    reveal_strlit("line");
    reveal_strlit("fields");
    reveal_strlit("spans");
    reveal_strlit("{}");
    let overwrite = layer.overwrite();
    let text = scalar_text(timestamp)->0;
    let meta = layer.metadata(event, text);
    let fields = visit_all(Members::empty(), event.attrs@, overwrite)->0;
    let objects = span_objects(chain_view(chain), overwrite)->0;
    let with_fields = put(meta, "fields"@, object_text(fields));
    assert("fields"@ != "spans"@) by {
        assert("fields"@.len() != "spans"@.len());
    }
    assert("file"@ != "spans"@) by {
        assert("file"@.len() != "spans"@.len());
    }
    assert("line"@ != "spans"@) by {
        assert("line"@.len() != "spans"@.len());
    }
    lemma_get_put(meta, "fields"@, object_text(fields), "spans"@);
    lemma_get_put(with_fields, "spans"@, array_text(object_texts(objects)), "fields"@);
    lemma_span_objects_in_order(chain_view(chain), overwrite);
    assert forall|j: int| 0 <= j < event.attrs@.len() implies has_key(
        fields,
        target_key(#[trigger] event.attrs@[j].0, overwrite),
    ) by {
        lemma_visit_all_has_key(Members::empty(), event.attrs@, overwrite, j);
    }
    assert forall|j: int|
        0 <= j < event.attrs@.len() && (forall|k: int|
            j < k < event.attrs@.len() ==> target_key(#[trigger] event.attrs@[k].0, overwrite)
                != target_key(event.attrs@[j].0, overwrite)) implies get(
        fields,
        target_key(#[trigger] event.attrs@[j].0, overwrite),
    ) == scalar_text(event.attrs@[j].1) by {
        lemma_visit_all_last_write(Members::empty(), event.attrs@, overwrite, j);
    }
    if event.attrs@.len() == 0 {
        assert(object_text(fields) =~= "{}"@);
    }
    if layer.level_name@ != "spans"@ && layer.timestamp_name@ != "spans"@ && layer.target_name@
        != "spans"@ {
        lemma_metadata_names(layer, event, text, "spans"@);
    }
}

/// Timestamp format selection. Under `Unix` and `UnixMillis` the timestamp
/// is written as a JSON number, the seconds or the milliseconds since the
/// start of 1970; under every other format, where it can be rendered, it
/// is written as a JSON string.
pub proof fn lemma_timestamp_is_number_or_string(format: TimestampFormat, at: Timestamp)
    requires
        at.valid(),
    ensures
        format.is_numeric() ==> format.value(at) is Some && scalar_text(format.value(at)->0)
            == Some(decimal(format.number(at))) && is_number_literal(decimal(format.number(at))),
        !format.is_numeric() && format.value(at) is Some ==> format.string(at) is Some
            && scalar_text(format.value(at)->0) == Some(json_string(format.string(at)->0)),
        !format.is_numeric() ==> (format.value(at) is Some <==> format.string(at) is Some),
{
    at.lemma_valid();
    if format.is_numeric() {
        lemma_decimal_is_number(format.number(at) as nat);
    }
}

} // verus!
