//! The random source of a fresh maze. Nothing here is proved: the contracts
//! below are what this crate takes on trust from `rand`.

use vstd::prelude::*;
use rand::Rng;
use rand::rngs::ThreadRng;

verus! {

/// `rand::rngs::ThreadRng`, the handle to the thread-local generator. It is
/// carried through the sampling loop and never looked into.
#[verifier::external_type_specification]
#[verifier::external_body]
pub struct ExThreadRng(ThreadRng);

/// `rand::thread_rng` hands out the thread-local generator, which the
/// operating system seeds on first use. Nothing is claimed of the handle.
/// (Where the system cannot supply a seed, `rand` panics.)
pub assume_specification[ rand::thread_rng ]() -> (rng: ThreadRng);

/// `Rng::gen_range` on the half-open range `0..bound`: some value of that
/// range, and nothing more is claimed, so two calls may differ. An empty
/// range makes `gen_range` panic, which `requires` rules out.
#[verifier::external_body]
pub(crate) fn gen_below(rng: &mut ThreadRng, bound: usize) -> (r: usize)
    requires
        bound > 0,
    ensures
        r < bound,
{
    rng.gen_range(0..bound)
}

} // verus!
