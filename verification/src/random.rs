//! The random source. What it hands out is different on every call, so no
//! contract here says which value comes back.

use rand::rngs::ThreadRng;
use rand::Rng;
use vstd::prelude::*;

verus! {

/// `rand::rngs::ThreadRng`, the generator that each thread owns. It is
/// carried through the library and never looked into.
#[verifier::external_type_specification]
#[verifier::external_body]
pub struct ExThreadRng(ThreadRng);

/// `rand::thread_rng` hands out the calling thread's generator. Nothing is
/// claimed of it.
pub assume_specification[ rand::thread_rng ]() -> (rng: ThreadRng);

/// `Rng::gen::<bool>` draws one bit. Either value may come back.
#[verifier::external_body]
pub(crate) fn random_bit(rng: &mut ThreadRng) -> (b: bool) {
    rng.gen::<bool>()
}

} // verus!
