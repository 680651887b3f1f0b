//! The source of randomness: the thread-local generator of the `rand` crate.
//!
//! Nothing here is proved. Each item states what the library takes on trust
//! from `rand`, and the verified code holds for every number that could come
//! back.

use vstd::prelude::*;
use rand::Rng;
use rand::rngs::ThreadRng;

verus! {

/// `rand::rngs::ThreadRng`, the handle to the generator of the current thread.
/// The library only passes it on; nothing is said of its state.
#[verifier::external_type_specification]
#[verifier::external_body]
pub struct ExThreadRng(ThreadRng);

/// `rand::thread_rng` hands out the generator of the current thread, which
/// the operating system seeds on first use; it panics if that seeding fails.
/// Nothing is claimed of the handle.
pub assume_specification[ rand::thread_rng ]() -> (rng: ThreadRng);

/// `Rng::gen_range` on the half-open range from zero to `bound`. It rejects an
/// empty range by a panic, so `bound` must be positive; the number it returns
/// lies in the range. Which one it is depends on the generator, and nothing
/// more is claimed.
#[verifier::external_body]
pub(crate) fn gen_index(rng: &mut ThreadRng, bound: usize) -> (index: usize)
    requires
        bound > 0,
    ensures
        index < bound,
{
    rng.gen_range(0..bound)
}

} // verus!
