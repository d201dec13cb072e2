//! The one place the engine draws randomness: picking the kind of the next
//! piece.

use vstd::prelude::*;

verus! {

/// Relies on rand::random_range: it returns a uniformly drawn value inside
/// the given range and panics only when the range is empty; 0..7 is not
/// empty, so the result is always below 7.
#[verifier::external_body]
pub(crate) fn random_kind_index() -> (r: usize)
    ensures
        r < 7,
{
    rand::random_range(0..7usize)
}

} // verus!
