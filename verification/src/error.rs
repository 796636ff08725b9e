//! What can go wrong while one event is formatted.

use vstd::prelude::*;

verus! {

/// The reason why an event was not formatted. No output is produced for
/// that event; other events and the scope stores are not affected.
#[derive(Debug, Clone, Copy, PartialEq, Eq, Structural)]
pub enum Error {
    /// The timestamp could not be rendered with the configured pattern.
    Format,
    /// A value has no JSON encoding: a float whose literal is not a JSON
    /// number.
    Encoding,
    /// A scope of the chain has no attribute store, though every open scope
    /// is given one.
    Metadata,
    /// The clock gave no instant that a timestamp can hold.
    Clock,
}

impl Error {
    /// A short description of the error.
    pub fn message(&self) -> (text: &'static str)
        ensures
            text@ == (match *self {
                Error::Format => "fmt error: the timestamp pattern cannot be rendered"@,
                Error::Encoding => "json error: a float is not a finite number"@,
                Error::Metadata => "scope error: a scope has no attribute store"@,
                Error::Clock => "clock error: the clock stands before 1970"@,
            }),
    {
        match self {
            Error::Format => "fmt error: the timestamp pattern cannot be rendered",
            Error::Encoding => "json error: a float is not a finite number",
            Error::Metadata => "scope error: a scope has no attribute store",
            Error::Clock => "clock error: the clock stands before 1970",
        }
    }
}

} // verus!
