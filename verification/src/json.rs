//! JSON text: the encoding of scalars, objects and arrays, and the builder
//! that collects the members of one object.

use vstd::prelude::*;
use crate::error::Error;
use crate::map::{has_key, put, unique_keys, OrderedMap};
use crate::text::{
    decimal, encode_i128, encode_string, encode_u128, is_number, is_number_literal, json_string,
    lemma_decimal_no_newline, lemma_json_string_no_newline, lemma_number_literal_chars,
    no_newline,
};
use crate::value::{TypedValue, Value};

verus! {

/// The members of a JSON object in the order in which they are written:
/// each is a name and the JSON text of its value.
pub type Members = Seq<(Seq<char>, Seq<char>)>;

/// The JSON text of a scalar, or `None` for a value that has none: a float
/// is written as its literal and must be a JSON number; integers are written
/// in decimal; strings, error messages and debug forms become JSON strings.
pub open spec fn scalar_text(v: Value) -> Option<Seq<char>> {
    match v {
        Value::Float64(literal) => if is_number_literal(literal) {
            Some(literal)
        } else {
            None
        },
        Value::Int128(i) => Some(decimal(i as int)),
        Value::UInt128(u) => Some(decimal(u as int)),
        Value::Bool(b) => Some(
            if b {
                "true"@
            } else {
                "false"@
            },
        ),
        Value::Str(s) => Some(json_string(s)),
        Value::RenderedError(s) => Some(json_string(s)),
        Value::RenderedDebug(s) => Some(json_string(s)),
    }
}

/// The text of one member: the name as a JSON string, a colon, the value.
pub open spec fn member_text(key: Seq<char>, value: Seq<char>) -> Seq<char> {
    json_string(key) + seq![':'] + value
}

/// The texts of all members, in order.
pub open spec fn member_texts(m: Members) -> Seq<Seq<char>> {
    Seq::new(m.len(), |i: int| member_text(m[i].0, m[i].1))
}

/// The items separated by commas.
pub open spec fn join(items: Seq<Seq<char>>) -> Seq<char>
    decreases items.len(),
{
    if items.len() == 0 {
        Seq::empty()
    } else if items.len() == 1 {
        items[0]
    } else {
        join(items.drop_last()) + seq![','] + items.last()
    }
}

/// The compact text of the JSON object with the members `m`.
pub open spec fn object_text(m: Members) -> Seq<char> {
    seq!['{'] + join(member_texts(m)) + seq!['}']
}

/// The compact text of the JSON array whose items have the texts `items`.
pub open spec fn array_text(items: Seq<Seq<char>>) -> Seq<char> {
    seq!['['] + join(items) + seq![']']
}

/// The texts of the objects in `objects`, in order.
pub open spec fn object_texts(objects: Seq<Members>) -> Seq<Seq<char>> {
    Seq::new(objects.len(), |i: int| object_text(objects[i]))
}

/// Joining one more item: the first stands alone, a later one follows a
/// comma.
pub proof fn lemma_join_push(items: Seq<Seq<char>>, item: Seq<char>)
    ensures
        join(items.push(item)) == if items.len() == 0 {
            item
        } else {
            join(items) + seq![','] + item
        },
{
    assert(items.push(item).drop_last() =~= items);
}

/// Encodes one scalar as JSON text.
pub fn encode_value(value: &TypedValue) -> (text: Result<String, Error>)
    ensures
        match text {
            Ok(t) => scalar_text(value@) == Some(t@),
            Err(e) => scalar_text(value@) is None && e == Error::Encoding,
        },
{
    match value {
        TypedValue::Float64(literal) => {
            if is_number(literal.as_str()) {
                Ok(literal.clone())
            } else {
                Err(Error::Encoding)
            }
        },
        TypedValue::Int128(i) => Ok(encode_i128(*i)),
        TypedValue::UInt128(u) => Ok(encode_u128(*u)),
        TypedValue::Bool(b) => {
            if *b {
                Ok("true".to_owned())
            } else {
                Ok("false".to_owned())
            }
        },
        TypedValue::Str(s) => Ok(encode_string(s.as_str())),
        TypedValue::RenderedError(s) => Ok(encode_string(s.as_str())),
        TypedValue::RenderedDebug(s) => Ok(encode_string(s.as_str())),
    }
}

/// Appends the items of `texts`, separated by commas, to `out`.
fn push_joined(out: &mut String, texts: &Vec<String>)
    ensures
        final(out)@ == old(out)@ + join(texts@.map_values(|t: String| t@)),
{
    let ghost items = texts@.map_values(|t: String| t@);
    let mut i: usize = 0;
    while i < texts.len()
        invariant
            i <= texts@.len(),
            items == texts@.map_values(|t: String| t@),
            out@ == old(out)@ + join(items.take(i as int)),
        decreases texts@.len() - i,
    {
        proof {
            lemma_join_push(items.take(i as int), items[i as int]);
            assert(items.take(i as int).push(items[i as int]) =~= items.take(i + 1));
        }
        if i > 0 {
            out.append(",");
            proof {
                reveal_strlit(",");
            }
        }
        out.append(texts[i].as_str());
        assert(out@ =~= old(out)@ + join(items.take(i + 1)));
        i += 1;
    }
    assert(items.take(i as int) =~= items);
}

/// The members of one JSON object while it is being written.
///
/// A member is a name and the JSON text of its value. A name occurs once:
/// writing under a name again replaces the value in place.
pub struct JsonMap {
    members: OrderedMap<String>,
}

impl View for JsonMap {
    type V = Members;

    closed spec fn view(&self) -> Members {
        self.members@
    }
}

impl JsonMap {
    /// An object without members.
    pub fn new() -> (map: Self)
        ensures
            map@ == Members::empty(),
    {
        JsonMap { members: OrderedMap::new() }
    }

    /// The number of members.
    pub fn len(&self) -> (n: usize)
        ensures
            n == self@.len(),
            unique_keys(self@),
    {
        self.members.len()
    }

    /// Whether the object has no members.
    pub fn is_empty(&self) -> (empty: bool)
        ensures
            empty == (self@.len() == 0),
    {
        self.members.is_empty()
    }

    /// Whether a member is named `key`.
    pub fn contains_key(&self, key: &str) -> (found: bool)
        ensures
            found == has_key(self@, key@),
    {
        self.members.contains_key(key)
    }

    /// Writes the member `key` with the JSON text `text` as its value.
    pub(crate) fn insert_text(&mut self, key: &str, text: String)
        ensures
            final(self)@ == put(old(self)@, key@, text@),
            unique_keys(final(self)@),
    {
        self.members.insert(key.to_owned(), text);
    }

    /// Writes the member `key` with a scalar value. A value without a JSON
    /// encoding is refused and the object stays as it is.
    pub fn insert_value(&mut self, key: &str, value: &TypedValue) -> (done: Result<(), Error>)
        ensures
            match done {
                Ok(_) => scalar_text(value@) is Some && final(self)@ == put(
                    old(self)@,
                    key@,
                    scalar_text(value@)->0,
                ),
                Err(e) => scalar_text(value@) is None && e == Error::Encoding && final(self)@
                    == old(self)@,
            },
    {
        match encode_value(value) {
            Ok(text) => {
                self.insert_text(key, text);
                Ok(())
            },
            Err(e) => Err(e),
        }
    }

    /// Writes the member `key` whose value is the object `object`.
    pub fn insert_object(&mut self, key: &str, object: &JsonMap)
        ensures
            final(self)@ == put(old(self)@, key@, object_text(object@)),
    {
        let text = object.end();
        self.insert_text(key, text);
    }

    /// Writes the member `key` whose value is the array of the objects in
    /// `objects`.
    pub fn insert_array(&mut self, key: &str, objects: &Vec<JsonMap>)
        ensures
            final(self)@ == put(
                old(self)@,
                key@,
                array_text(object_texts(objects@.map_values(|o: JsonMap| o@))),
            ),
    {
        let ghost items = object_texts(objects@.map_values(|o: JsonMap| o@));
        let mut texts: Vec<String> = Vec::new();
        let mut i: usize = 0;
        while i < objects.len()
            invariant
                i <= objects@.len(),
                texts@.len() == i,
                items == object_texts(objects@.map_values(|o: JsonMap| o@)),
                forall|j: int| 0 <= j < i ==> texts@[j]@ == items[j],
            decreases objects@.len() - i,
        {
            texts.push(objects[i].end());
            i += 1;
        }
        assert(texts@.map_values(|t: String| t@) =~= items);
        let mut text = "[".to_owned();
        push_joined(&mut text, &texts);
        text.append("]");
        proof {
            reveal_strlit("[");
            reveal_strlit("]");
            assert(text@ =~= array_text(items));
        }
        self.insert_text(key, text);
    }

    /// The compact JSON text of the object.
    pub fn end(&self) -> (text: String)
        ensures
            text@ == object_text(self@),
    {
        let ghost items = member_texts(self@);
        let mut texts: Vec<String> = Vec::new();
        let mut i: usize = 0;
        while i < self.members.len()
            invariant
                i <= self@.len(),
                texts@.len() == i,
                items == member_texts(self@),
                forall|j: int| 0 <= j < i ==> texts@[j]@ == items[j],
            decreases self@.len() - i,
        {
            let mut member = encode_string(self.members.key_at(i));
            member.append(":");
            member.append(self.members.value_at(i).as_str());
            proof {
                reveal_strlit(":");
                assert(member@ =~= member_text(self@[i as int].0, self@[i as int].1));
            }
            texts.push(member);
            i += 1;
        }
        assert(texts@.map_values(|t: String| t@) =~= items);
        let mut text = "{".to_owned();
        push_joined(&mut text, &texts);
        text.append("}");
        proof {
            reveal_strlit("{");
            reveal_strlit("}");
            assert(text@ =~= object_text(self@));
        }
        text
    }
}

/// Whether `t` is the JSON text of a scalar.
pub open spec fn is_scalar_text(t: Seq<char>) -> bool {
    exists|v: Value| scalar_text(v) == Some(t)
}

/// Whether every member of `m` has a scalar as its value, and no name
/// occurs twice.
pub open spec fn is_flat_object(m: Members) -> bool {
    unique_keys(m) && forall|i: int| 0 <= i < m.len() ==> is_scalar_text(#[trigger] m[i].1)
}

/// Whether `t` is the JSON text of a value that a record can hold: a
/// scalar, an object of scalars, or an array of objects of scalars.
pub open spec fn is_value_text(t: Seq<char>) -> bool {
    ||| is_scalar_text(t)
    ||| exists|m: Members| is_flat_object(m) && t == object_text(m)
    ||| exists|objects: Seq<Members>|
        (forall|i: int| 0 <= i < objects.len() ==> is_flat_object(#[trigger] objects[i])) && t
            == array_text(object_texts(objects))
}

/// Whether `m` are the members of a JSON object: no name occurs twice, and
/// every value is the text of a JSON value.
pub open spec fn is_json_object(m: Members) -> bool {
    unique_keys(m) && forall|i: int| 0 <= i < m.len() ==> is_value_text(#[trigger] m[i].1)
}

/// Whether `line` is the text of one JSON object, without a line feed in
/// it, followed by one line feed.
pub open spec fn is_json_line(line: Seq<char>) -> bool {
    exists|members: Members|
        is_json_object(members) && no_newline(#[trigger] object_text(members)) && line
            == object_text(members) + seq!['\n']
}

/// Whether every value in `m` meets `p`.
pub open spec fn all_values(m: Members, p: spec_fn(Seq<char>) -> bool) -> bool {
    forall|i: int| 0 <= i < m.len() ==> p(#[trigger] m[i].1)
}

/// A write keeps what holds of every value, if it holds of the new one.
pub proof fn lemma_put_all_values(
    m: Members,
    key: Seq<char>,
    value: Seq<char>,
    p: spec_fn(Seq<char>) -> bool,
)
    requires
        all_values(m, p),
        p(value),
    ensures
        all_values(put(m, key, value), p),
{
    crate::map::lemma_index_of(m, key);
}

/// The text of a scalar holds no line feed.
pub proof fn lemma_scalar_no_newline(v: Value)
    requires
        scalar_text(v) is Some,
    ensures
        no_newline(scalar_text(v)->0),
{
    match v {
        Value::Float64(literal) => {
            lemma_number_literal_chars(literal);
        },
        Value::Int128(i) => {
            lemma_decimal_no_newline(i as int);
        },
        Value::UInt128(u) => {
            lemma_decimal_no_newline(u as int);
        },
        Value::Bool(b) => {
            reveal_strlit("true");
            reveal_strlit("false");
        },
        Value::Str(s) => {
            lemma_json_string_no_newline(s);
        },
        Value::RenderedError(s) => {
            lemma_json_string_no_newline(s);
        },
        Value::RenderedDebug(s) => {
            lemma_json_string_no_newline(s);
        },
    }
}

/// Items without a line feed are joined without one.
pub proof fn lemma_join_no_newline(items: Seq<Seq<char>>)
    requires
        forall|i: int| 0 <= i < items.len() ==> no_newline(#[trigger] items[i]),
    ensures
        no_newline(join(items)),
    decreases items.len(),
{
    if items.len() > 1 {
        let rest = items.drop_last();
        assert forall|i: int| 0 <= i < rest.len() implies no_newline(#[trigger] rest[i]) by {
            assert(rest[i] == items[i]);
        }
        lemma_join_no_newline(rest);
        assert(no_newline(items[items.len() - 1]));
    } else if items.len() == 1 {
        assert(no_newline(items[0]));
    }
}

/// The text of an object whose values hold no line feed holds none.
pub proof fn lemma_object_no_newline(m: Members)
    requires
        all_values(m, |t: Seq<char>| no_newline(t)),
    ensures
        no_newline(object_text(m)),
{
    let items = member_texts(m);
    assert forall|i: int| 0 <= i < items.len() implies no_newline(#[trigger] items[i]) by {
        lemma_json_string_no_newline(m[i].0);
        assert(no_newline(m[i].1));
    }
    lemma_join_no_newline(items);
}

/// The text of an array whose items hold no line feed holds none.
pub proof fn lemma_array_no_newline(items: Seq<Seq<char>>)
    requires
        forall|i: int| 0 <= i < items.len() ==> no_newline(#[trigger] items[i]),
    ensures
        no_newline(array_text(items)),
{
    lemma_join_no_newline(items);
}

} // verus!
