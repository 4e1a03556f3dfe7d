//! The one place the library draws randomness from the outside.

use vstd::prelude::*;
use rand::RngExt;

verus! {

/// Relies on rand's `Rng::random_range` over `0..bound`: it returns a value
/// sampled from that range, and panics only when the range is empty.
#[verifier::external_body]
pub(crate) fn rand_below(bound: u32) -> (r: u32)
    requires
        1 <= bound,
    ensures
        r < bound,
{
    rand::rng().random_range(0..bound)
}

} // verus!
