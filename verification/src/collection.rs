//! The collection that a store is bound to.

use vstd::prelude::*;

verus! {

/// One collection of a backend: its name and, where it is known, the number of
/// coordinates that every embedding in it has.
///
/// With a configured dimension the library refuses vectors of another length before
/// anything is sent. Without one, only the backend can refuse them.
#[derive(Clone, Debug, PartialEq, Eq)]
pub struct Collection {
    pub name: String,
    pub dimension: Option<usize>,
}

} // verus!
