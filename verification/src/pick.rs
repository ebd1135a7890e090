//! Uniform random choice over a candidate list.

use vstd::prelude::*;

verus! {

/// Relies on rand's `random_range` over the thread-local generator: a
/// uniformly random index strictly below `len`. Nothing more is promised
/// of a random draw.
#[verifier::external_body]
pub(crate) fn choose_index(len: usize) -> (r: usize)
    requires
        len >= 1,
    ensures
        r < len,
{
    rand::random_range(0..len)
}

} // verus!
