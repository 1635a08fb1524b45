//! A wrapper around a renderer's path primitive.

use vstd::prelude::*;

verus! {

/// Holds the path object of some drawing backend. The interpreter itself
/// never touches it; a renderer fills one `Draw` per trail.
pub struct Draw<T> {
    pub path: T,
}

} // verus!
