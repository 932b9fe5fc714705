//! Trusted boundary to the `rand` crate: the thread-local generator and
//! uniform sampling from a half-open integer range.

use vstd::prelude::*;

verus! {

#[verifier::external_type_specification]
#[verifier::external_body]
pub struct ExThreadRng(rand::rngs::ThreadRng);

/// Relies on `rand::thread_rng`: hands out the thread-local generator.
#[verifier::external_body]
pub(crate) fn new_rng() -> rand::rngs::ThreadRng {
    rand::thread_rng()
}

/// Relies on `rand::Rng::gen_range` on a half-open `i64` range: it panics
/// only on an empty range, which `requires` rules out, and returns a value
/// inside the range. Nothing more is claimed of a random draw.
#[verifier::external_body]
pub(crate) fn rng_range(rng: &mut rand::rngs::ThreadRng, lo: i64, hi: i64) -> (r: i64)
    requires
        lo < hi,
    ensures
        lo <= r < hi,
{
    rand::Rng::gen_range(rng, lo..hi)
}

} // verus!
