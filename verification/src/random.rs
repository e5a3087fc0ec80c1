//! The random draws, taken from the thread's generator of the `rand`
//! crate. Nothing in this file is proved: it states what is taken on
//! trust of that crate, which is as little as the type of a draw.

use vstd::prelude::*;
use rand::Rng;
use rand::rngs::ThreadRng;

verus! {

/// `rand::rngs::ThreadRng`: the handle to the calling thread's random
/// number generator. Nothing is known here of what it holds.
#[verifier::external_type_specification]
#[verifier::external_body]
pub struct ExThreadRng(ThreadRng);

/// `rand::thread_rng`: hands out the calling thread's generator, which is
/// seeded by the system when the thread first asks for it. Nothing is
/// claimed of the generator.
pub assume_specification[ rand::thread_rng ]() -> (rng: ThreadRng);

/// `rand::Rng::gen` at `i32`, on the thread's generator: the next random
/// draw. Any 32-bit signed number may come back, and two calls need not
/// agree, so nothing is claimed of the result.
#[verifier::external_body]
pub(crate) fn draw_i32(rng: &mut ThreadRng) -> (draw: i32) {
    rng.gen::<i32>()
}

} // verus!
