//! Chance: the two draws that the games make, from the thread's random
//! number generator.
//!
//! Nothing is known of a draw but its range. What a game does with a draw
//! is decided by functions that take the draw as an argument.

use vstd::prelude::*;
use rand::rngs::ThreadRng;
use rand::seq::SliceRandom;
use rand::Rng;

verus! {

/// The random number generator of the current thread.
#[verifier::external_type_specification]
#[verifier::external_body]
pub struct ExThreadRng(ThreadRng);

/// Calls `SliceRandom::choose` on `items`: `None` for an empty slice, else
/// one of its items.
#[verifier::external_body]
pub(crate) fn choose_one(items: &[&'static str], rng: &mut ThreadRng) -> (chosen: Option<
    &'static str,
>)
    ensures
        chosen is None <==> items@.len() == 0,
        chosen matches Some(item) ==> exists|i: int| 0 <= i < items@.len() && item == items@[i],
{
    items.choose(rng).copied()
}

/// Calls `Rng::gen_range` with the range from 0 to `max`, both included:
/// a number in that range.
#[verifier::external_body]
pub(crate) fn draw_upto(max: usize, rng: &mut ThreadRng) -> (n: usize)
    ensures
        n <= max,
{
    rng.gen_range(0..=max)
}

} // verus!
