//! Feeding values to a hasher.

use vstd::prelude::*;
use std::hash::{Hash, Hasher};

verus! {

/// `std::hash::Hash::hash` on `value`, into `state`. What is written to the
/// hasher is decided by how the type of `value` hashes itself, so nothing is
/// said of the state afterwards.
#[verifier::external_body]
pub(crate) fn feed<T: Hash, H: Hasher>(value: &T, state: &mut H) {
    value.hash(state)
}

} // verus!
