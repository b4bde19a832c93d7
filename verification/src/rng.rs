//! The library's single source of randomness: every function that
//! consumes chance draws through this wrapper, so all that is ever
//! assumed of the generator is the range of its values.

use vstd::prelude::*;
use rand::Rng;

verus! {

/// Relies on rand::Rng::gen_range over `lo..hi`: a draw from the
/// half-open range, panicking only when the range is empty.
#[verifier::external_body]
pub(crate) fn rand_range(lo: i64, hi: i64) -> (r: i64)
    requires
        lo < hi,
    ensures
        lo <= r < hi,
{
    rand::thread_rng().gen_range(lo..hi)
}

} // verus!
