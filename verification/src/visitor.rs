//! The visitor that writes attributes into a JSON object.

use vstd::prelude::*;
use crate::error::Error;
use crate::json::{scalar_text, JsonMap, Members};
use crate::map::{get, has_key, lemma_get_put, lemma_put_unique, put, unique_keys};
use crate::text::str_eq;
use crate::value::{AttributeSet, TypedValue, Value};

verus! {

/// The name under which a field called `key` is written: the field
/// literally named `message` goes under the overwriting name, if there is
/// one; every other field keeps its name.
pub open spec fn target_key(key: Seq<char>, overwrite: Option<Seq<char>>) -> Seq<char> {
    match overwrite {
        Some(name) => if key == "message"@ {
            name
        } else {
            key
        },
        None => key,
    }
}

/// The object `m` after a visit of the field `key` with `value`, or `None`
/// when the value has no JSON encoding.
pub open spec fn visit_one(
    m: Members,
    key: Seq<char>,
    value: Value,
    overwrite: Option<Seq<char>>,
) -> Option<Members> {
    match scalar_text(value) {
        Some(text) => Some(put(m, target_key(key, overwrite), text)),
        None => None,
    }
}

/// The object `m` after a visit of every attribute in `attrs`, first to last,
/// or `None` when one of the values has no JSON encoding.
pub open spec fn visit_all(
    m: Members,
    attrs: Seq<(Seq<char>, Value)>,
    overwrite: Option<Seq<char>>,
) -> Option<Members>
    decreases attrs.len(),
{
    if attrs.len() == 0 {
        Some(m)
    } else {
        match visit_all(m, attrs.drop_last(), overwrite) {
            Some(before) => visit_one(before, attrs.last().0, attrs.last().1, overwrite),
            None => None,
        }
    }
}

/// The state of a visitor after the visit of one field: a visitor that has
/// failed stays as it is; otherwise the field is written, or the failure is
/// kept and the object stays as it is.
pub open spec fn visit_step(
    m: Members,
    failure: Option<Error>,
    key: Seq<char>,
    value: Value,
    overwrite: Option<Seq<char>>,
) -> (Members, Option<Error>) {
    if failure is Some {
        (m, failure)
    } else {
        match visit_one(m, key, value, overwrite) {
            Some(after) => (after, None),
            None => (m, Some(Error::Encoding)),
        }
    }
}

/// The error that a state holds, if any.
pub open spec fn failure(state: Result<(), Error>) -> Option<Error> {
    match state {
        Ok(_) => None,
        Err(e) => Some(e),
    }
}

/// The view of an optional name.
pub open spec fn name_view(name: Option<&'static str>) -> Option<Seq<char>> {
    match name {
        Some(n) => Some(n@),
        None => None,
    }
}

/// Writes fields into a JSON object, one (name, value) pair at a time.
///
/// A field literally named `message` is written under
/// `overwrite_message_name`, if that is set. The first value that cannot be
/// encoded stops the visitor: it is kept in `state`, and later visits write
/// nothing.
pub struct Visitor<'a> {
    /// The object that the fields are written into.
    pub serializer: &'a mut JsonMap,
    /// `Ok` until a value could not be encoded, then that error.
    pub state: Result<(), Error>,
    /// The name that replaces `message`.
    pub overwrite_message_name: Option<&'static str>,
}

impl<'a> Visitor<'a> {
    /// A visitor that writes into `serializer`.
    pub fn new(
        serializer: &'a mut JsonMap,
        overwrite_message_name: Option<&'static str>,
    ) -> (visitor: Self)
        ensures
            *visitor.serializer == *old(serializer),
            *final(visitor.serializer) == *final(serializer),
            visitor.state is Ok,
            visitor.overwrite_message_name == overwrite_message_name,
    {
        Visitor { serializer, state: Ok(()), overwrite_message_name }
    }

    /// Ends the visit and hands back the first error, if there was one. The
    /// object stays as the visits left it.
    pub fn finish(self) -> (state: Result<(), Error>)
        ensures
            failure(state) == failure(self.state),
            *final(self.serializer) == *old(self.serializer),
    {
        self.state
    }

    /// Writes one field, whatever the state of the visitor, and leaves the
    /// state as it is. A value without a JSON encoding is refused and the
    /// object stays as it is.
    pub fn serialize_entry(&mut self, key: &str, value: &TypedValue) -> (done: Result<(), Error>)
        ensures
            final(self).state == old(self).state,
            final(self).overwrite_message_name == old(self).overwrite_message_name,
            *final(final(self).serializer) == *final(old(self).serializer),
            match done {
                Ok(_) => visit_one(
                    old(self).serializer@,
                    key@,
                    value@,
                    name_view(old(self).overwrite_message_name),
                ) == Some(final(self).serializer@),
                Err(e) => e == Error::Encoding && scalar_text(value@) is None
                    && final(self).serializer@ == old(self).serializer@,
            },
    {
        match self.overwrite_message_name {
            Some(name) => {
                if str_eq(key, "message") {
                    self.serializer.insert_value(name, value)
                } else {
                    self.serializer.insert_value(key, value)
                }
            },
            None => self.serializer.insert_value(key, value),
        }
    }

    /// Visits one field: writes it unless the visitor has failed before, and
    /// keeps the error if the value cannot be encoded.
    pub fn visit(&mut self, name: &str, value: &TypedValue)
        ensures
            final(self).overwrite_message_name == old(self).overwrite_message_name,
            *final(final(self).serializer) == *final(old(self).serializer),
            (final(self).serializer@, failure(final(self).state)) == visit_step(
                old(self).serializer@,
                failure(old(self).state),
                name@,
                value@,
                name_view(old(self).overwrite_message_name),
            ),
    {
        if self.state.is_ok() {
            let done = self.serialize_entry(name, value);
            self.state = done;
        }
    }
}

/// Visits every attribute of `attrs`, first to last, into `map`, with
/// `message` written under `message_name`, if that is set. The visit stops
/// at the first value without a JSON encoding: the attributes before it are
/// written, and nothing after them.
pub fn visit_attrs(
    map: &mut JsonMap,
    attrs: &AttributeSet,
    message_name: Option<&'static str>,
) -> (done: Result<(), Error>)
    ensures
        match done {
            Ok(_) => visit_all(old(map)@, attrs@, name_view(message_name)) == Some(final(map)@),
            Err(e) => e == Error::Encoding && visit_all(old(map)@, attrs@, name_view(message_name))
                is None && exists|k: int|
                0 <= k < attrs@.len() && scalar_text(attrs@[k].1) is None && #[trigger] visit_all(
                    old(map)@,
                    attrs@.take(k),
                    name_view(message_name),
                ) == Some(final(map)@),
        },
{
    let ghost before = map@;
    let ghost overwrite = name_view(message_name);
    let ghost mut stopped: int = 0;
    let mut visitor = Visitor::new(map, message_name);
    let mut i: usize = 0;
    while i < attrs.len()
        invariant
            i <= attrs@.len(),
            overwrite == name_view(message_name),
            visitor.overwrite_message_name == message_name,
            after_borrow(*map) == *final(visitor.serializer),
            match visitor.state {
                Ok(_) => visit_all(before, attrs@.take(i as int), overwrite) == Some(
                    visitor.serializer@,
                ),
                Err(e) => e == Error::Encoding && visit_all(before, attrs@, overwrite) is None && 0
                    <= stopped < attrs@.len() && scalar_text(attrs@[stopped].1) is None
                    && visit_all(before, attrs@.take(stopped), overwrite) == Some(
                    visitor.serializer@,
                ),
            },
        decreases attrs@.len() - i,
    {
        proof {
            assert(attrs@.take(i + 1).drop_last() =~= attrs@.take(i as int));
            if visitor.state is Ok && scalar_text(attrs@[i as int].1) is None {
                lemma_visit_all_fails(before, attrs@, overwrite, i as int);
                stopped = i as int;
            }
        }
        visitor.visit(attrs.key_at(i), attrs.value_at(i));
        i += 1;
    }
    assert(attrs@.take(i as int) =~= attrs@);
    visitor.finish()
}

/// A value without a JSON encoding makes the whole visit fail.
pub proof fn lemma_visit_all_fails(
    m: Members,
    attrs: Seq<(Seq<char>, Value)>,
    overwrite: Option<Seq<char>>,
    i: int,
)
    requires
        0 <= i < attrs.len(),
        scalar_text(attrs[i].1) is None,
    ensures
        visit_all(m, attrs, overwrite) is None,
    decreases attrs.len(),
{
    if i < attrs.len() - 1 {
        lemma_visit_all_fails(m, attrs.drop_last(), overwrite, i);
    }
}

/// A visit keeps the names unique.
pub proof fn lemma_visit_all_unique(
    m: Members,
    attrs: Seq<(Seq<char>, Value)>,
    overwrite: Option<Seq<char>>,
)
    requires
        unique_keys(m),
        visit_all(m, attrs, overwrite) is Some,
    ensures
        unique_keys(visit_all(m, attrs, overwrite)->0),
    decreases attrs.len(),
{
    if attrs.len() > 0 {
        lemma_visit_all_unique(m, attrs.drop_last(), overwrite);
        let before = visit_all(m, attrs.drop_last(), overwrite)->0;
        lemma_put_unique(
            before,
            target_key(attrs.last().0, overwrite),
            scalar_text(attrs.last().1)->0,
        );
    }
}

/// A visit leaves a name alone that none of the attributes is written
/// under.
pub proof fn lemma_visit_all_keeps(
    m: Members,
    attrs: Seq<(Seq<char>, Value)>,
    overwrite: Option<Seq<char>>,
    key: Seq<char>,
)
    requires
        visit_all(m, attrs, overwrite) is Some,
        forall|k: int| 0 <= k < attrs.len() ==> target_key(#[trigger] attrs[k].0, overwrite) != key,
    ensures
        get(visit_all(m, attrs, overwrite)->0, key) == get(m, key),
        has_key(visit_all(m, attrs, overwrite)->0, key) == has_key(m, key),
    decreases attrs.len(),
{
    if attrs.len() > 0 {
        let rest = attrs.drop_last();
        assert forall|k: int| 0 <= k < rest.len() implies target_key(
            #[trigger] rest[k].0,
            overwrite,
        ) != key by {
            assert(rest[k] == attrs[k]);
        }
        lemma_visit_all_keeps(m, rest, overwrite, key);
        let before = visit_all(m, rest, overwrite)->0;
        assert(target_key(attrs[attrs.len() - 1].0, overwrite) != key);
        lemma_get_put(
            before,
            target_key(attrs.last().0, overwrite),
            scalar_text(attrs.last().1)->0,
            key,
        );
    }
}

/// After a visit, a name holds the value of the last attribute written
/// under it.
pub proof fn lemma_visit_all_last_write(
    m: Members,
    attrs: Seq<(Seq<char>, Value)>,
    overwrite: Option<Seq<char>>,
    j: int,
)
    requires
        visit_all(m, attrs, overwrite) is Some,
        0 <= j < attrs.len(),
        forall|k: int|
            j < k < attrs.len() ==> target_key(#[trigger] attrs[k].0, overwrite) != target_key(
                attrs[j].0,
                overwrite,
            ),
    ensures
        get(visit_all(m, attrs, overwrite)->0, target_key(attrs[j].0, overwrite)) == scalar_text(
            attrs[j].1,
        ),
        scalar_text(attrs[j].1) is Some,
    decreases attrs.len(),
{
    let key = target_key(attrs[j].0, overwrite);
    let rest = attrs.drop_last();
    let before = visit_all(m, rest, overwrite)->0;
    if j == attrs.len() - 1 {
        lemma_get_put(before, key, scalar_text(attrs.last().1)->0, key);
    } else {
        assert(rest[j] == attrs[j]);
        assert forall|k: int| j < k < rest.len() implies target_key(
            #[trigger] rest[k].0,
            overwrite,
        ) != key by {
            assert(rest[k] == attrs[k]);
        }
        lemma_visit_all_last_write(m, rest, overwrite, j);
        assert(target_key(attrs[attrs.len() - 1].0, overwrite) != key);
        lemma_get_put(
            before,
            target_key(attrs.last().0, overwrite),
            scalar_text(attrs.last().1)->0,
            key,
        );
    }
}

/// Under an overwriting name other than `message`, a visit writes nothing
/// under `message`, and a field called `message` is written under the
/// overwriting name.
pub proof fn lemma_visit_all_renames_message(
    m: Members,
    attrs: Seq<(Seq<char>, Value)>,
    name: Seq<char>,
)
    requires
        name != "message"@,
        visit_all(m, attrs, Some(name)) is Some,
    ensures
        has_key(visit_all(m, attrs, Some(name))->0, "message"@) == has_key(m, "message"@),
        get(visit_all(m, attrs, Some(name))->0, "message"@) == get(m, "message"@),
        (exists|j: int| 0 <= j < attrs.len() && #[trigger] attrs[j].0 == "message"@) ==> has_key(
            visit_all(m, attrs, Some(name))->0,
            name,
        ),
    decreases attrs.len(),
{
    let overwrite = Some(name);
    assert forall|k: int| 0 <= k < attrs.len() implies target_key(
        #[trigger] attrs[k].0,
        overwrite,
    ) != "message"@ by {}
    lemma_visit_all_keeps(m, attrs, overwrite, "message"@);
    if exists|j: int| 0 <= j < attrs.len() && #[trigger] attrs[j].0 == "message"@ {
        let j = choose|j: int| 0 <= j < attrs.len() && #[trigger] attrs[j].0 == "message"@;
        lemma_visit_all_has_key(m, attrs, overwrite, j);
    }
}

/// After a visit, the name that an attribute was written under is present.
pub proof fn lemma_visit_all_has_key(
    m: Members,
    attrs: Seq<(Seq<char>, Value)>,
    overwrite: Option<Seq<char>>,
    j: int,
)
    requires
        visit_all(m, attrs, overwrite) is Some,
        0 <= j < attrs.len(),
    ensures
        has_key(visit_all(m, attrs, overwrite)->0, target_key(attrs[j].0, overwrite)),
    decreases attrs.len(),
{
    let key = target_key(attrs[j].0, overwrite);
    let rest = attrs.drop_last();
    let before = visit_all(m, rest, overwrite)->0;
    if j < attrs.len() - 1 {
        assert(rest[j] == attrs[j]);
        lemma_visit_all_has_key(m, rest, overwrite, j);
    }
    lemma_get_put(
        before,
        target_key(attrs.last().0, overwrite),
        scalar_text(attrs.last().1)->0,
        key,
    );
}

} // verus!
