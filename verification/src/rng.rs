//! The one randomness primitive the gameplay rules draw from.

use vstd::prelude::*;
use rand::Rng;

verus! {

/// Relies on rand::Rng::gen_range on the thread-local generator: it returns
/// a value of the given half-open range (and panics on an empty one, which
/// the precondition rules out). Nothing more is promised of a random draw.
#[verifier::external_body]
pub(crate) fn rand_in_range(lo: i64, hi: i64) -> (r: i64)
    requires
        lo < hi,
    ensures
        lo <= r < hi,
{
    rand::thread_rng().gen_range(lo..hi)
}

} // verus!
