//! The attribute store of one open scope.

use vstd::prelude::*;
use crate::error::Error;
use crate::map::{put_all, unique_keys};
use crate::value::{pairs_view, AttributeSet, TypedValue, Value};

verus! {

/// The attributes that a scope has been given so far.
///
/// A store is created with the attributes the scope opens with and takes
/// further attributes while the scope is open. Nothing is ever removed.
pub struct ScopeStore {
    attrs: AttributeSet,
}

impl View for ScopeStore {
    type V = Seq<(Seq<char>, Value)>;

    closed spec fn view(&self) -> Seq<(Seq<char>, Value)> {
        self.attrs@
    }
}

impl ScopeStore {
    /// A store seeded with `initial_attrs`, written first to last: where a
    /// name occurs twice the later value stays.
    pub fn create(initial_attrs: Vec<(String, TypedValue)>) -> (store: Self)
        ensures
            store@ == put_all(Seq::empty(), pairs_view(initial_attrs@)),
    {
        let mut store = ScopeStore { attrs: AttributeSet::new() };
        store.record(initial_attrs);
        store
    }

    /// The attributes as they are now. The result is a copy: a later
    /// `record` does not change it.
    pub fn snapshot(&self) -> (attrs: AttributeSet)
        ensures
            attrs@ == self@,
            unique_keys(attrs@),
    {
        self.attrs.clone()
    }

    /// Merges `additional_attrs` into the store, written first to last: a
    /// name that is present takes the new value, every other entry stays.
    pub fn record(&mut self, additional_attrs: Vec<(String, TypedValue)>)
        ensures
            final(self)@ == put_all(old(self)@, pairs_view(additional_attrs@)),
    {
        let ghost pairs = pairs_view(additional_attrs@);
        let mut rest = additional_attrs;
        let mut i: usize = 0;
        while i < rest.len()
            invariant
                rest@.len() == pairs.len(),
                i <= rest@.len(),
                forall|j: int| i <= j < rest@.len() ==> (rest@[j].0@, rest@[j].1@) == pairs[j],
                self.attrs@ == put_all(old(self)@, pairs.take(i as int)),
            decreases rest@.len() - i,
        {
            let mut pair = (String::new(), TypedValue::Bool(false));
            core::mem::swap(&mut rest[i], &mut pair);
            proof {
                assert(pairs.take(i + 1).drop_last() =~= pairs.take(i as int));
            }
            self.attrs.insert(pair.0, pair.1);
            i += 1;
        }
        assert(pairs.take(i as int) =~= pairs);
    }
}

/// The chain of attribute sets for one formatting pass, from what the host
/// found for each scope, root first. A scope for which nothing was found
/// makes the pass fail.
pub fn scope_chain(found: Vec<Option<AttributeSet>>) -> (chain: Result<Vec<AttributeSet>, Error>)
    ensures
        match chain {
            Ok(sets) => sets@.len() == found@.len() && forall|i: int|
                0 <= i < found@.len() ==> found@[i] == Some(#[trigger] sets@[i]),
            Err(e) => e == Error::Metadata && exists|i: int|
                0 <= i < found@.len() && #[trigger] found@[i] is None,
        },
{
    let mut rest = found;
    let mut sets: Vec<AttributeSet> = Vec::new();
    let mut i: usize = 0;
    while i < rest.len()
        invariant
            rest@.len() == found@.len(),
            i <= rest@.len(),
            sets@.len() == i,
            forall|j: int| i <= j < rest@.len() ==> rest@[j] == found@[j],
            forall|j: int| 0 <= j < i ==> found@[j] == Some(#[trigger] sets@[j]),
        decreases rest@.len() - i,
    {
        let mut slot: Option<AttributeSet> = None;
        core::mem::swap(&mut rest[i], &mut slot);
        match slot {
            Some(set) => {
                sets.push(set);
            },
            None => {
                assert(found@[i as int] is None);
                return Err(Error::Metadata);
            },
        }
        i += 1;
    }
    Ok(sets)
}

} // verus!
