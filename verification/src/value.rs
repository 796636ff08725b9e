//! Attribute values and attribute sets.

use vstd::prelude::*;
use crate::map::OrderedMap;

verus! {

/// One attribute value, as captured from an event or a scope.
///
/// A float is carried as its decimal literal. Errors and values that only
/// know how to print themselves are carried as the text they printed at
/// capture time; the object itself is not kept.
#[derive(Debug)]
pub enum TypedValue {
    /// A 64-bit float, as a decimal literal such as `1.5` or `-2e10`.
    Float64(String),
    /// A signed integer of up to 128 bits.
    Int128(i128),
    /// An unsigned integer of up to 128 bits.
    UInt128(u128),
    /// A boolean.
    Bool(bool),
    /// A string.
    Str(String),
    /// The message of an error.
    RenderedError(String),
    /// The debug form of a value.
    RenderedDebug(String),
}

/// The mathematical value of a [`TypedValue`].
pub enum Value {
    Float64(Seq<char>),
    Int128(i128),
    UInt128(u128),
    Bool(bool),
    Str(Seq<char>),
    RenderedError(Seq<char>),
    RenderedDebug(Seq<char>),
}

impl View for TypedValue {
    type V = Value;

    open spec fn view(&self) -> Value {
        match self {
            TypedValue::Float64(s) => Value::Float64(s@),
            TypedValue::Int128(i) => Value::Int128(*i),
            TypedValue::UInt128(u) => Value::UInt128(*u),
            TypedValue::Bool(b) => Value::Bool(*b),
            TypedValue::Str(s) => Value::Str(s@),
            TypedValue::RenderedError(s) => Value::RenderedError(s@),
            TypedValue::RenderedDebug(s) => Value::RenderedDebug(s@),
        }
    }
}

impl Clone for TypedValue {
    fn clone(&self) -> (copy: Self)
        ensures
            copy@ == self@,
    {
        match self {
            TypedValue::Float64(s) => TypedValue::Float64(s.clone()),
            TypedValue::Int128(i) => TypedValue::Int128(*i),
            TypedValue::UInt128(u) => TypedValue::UInt128(*u),
            TypedValue::Bool(b) => TypedValue::Bool(*b),
            TypedValue::Str(s) => TypedValue::Str(s.clone()),
            TypedValue::RenderedError(s) => TypedValue::RenderedError(s.clone()),
            TypedValue::RenderedDebug(s) => TypedValue::RenderedDebug(s.clone()),
        }
    }
}

/// The attributes of one event or one scope: an insertion-ordered map from
/// field name to value, in which the last write to a name wins.
pub type AttributeSet = OrderedMap<TypedValue>;

/// The mathematical value of a list of (name, value) pairs.
pub open spec fn pairs_view(pairs: Seq<(String, TypedValue)>) -> Seq<(Seq<char>, Value)> {
    Seq::new(pairs.len(), |i: int| (pairs[i].0@, pairs[i].1@))
}

} // verus!
