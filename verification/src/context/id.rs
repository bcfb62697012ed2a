//! Identifiers of contexts.

use vstd::prelude::*;

verus! {

/// Unique identifier of a context: the number of the process or thread.
#[derive(Clone, Copy, Debug, PartialEq, Eq, Structural, PartialOrd, Ord, Hash)]
pub struct ContextId(usize);

impl View for ContextId {
    type V = usize;

    /// The number of the identifier.
    closed spec fn view(&self) -> usize {
        self.0
    }
}

impl ContextId {
    /// The number of the identifier.
    pub fn into(self) -> (number: usize)
        ensures
            number == self@,
    {
        self.0
    }

    /// The identifier with the number `number`.
    pub fn from(number: usize) -> (id: ContextId)
        ensures
            id@ == number,
    {
        ContextId(number)
    }
}

} // verus!
