//! The random draws the game makes, taken from the `rand` crate.

use vstd::prelude::*;
use rand::Rng;
use rand::seq::SliceRandom;

verus! {

#[verifier::external_type_specification]
#[verifier::external_body]
pub struct ExThreadRng(rand::rngs::ThreadRng);

/// Relies on rand::thread_rng: a handle on the generator of the current
/// thread. Nothing is promised of what it will draw.
#[verifier::external_body]
pub(crate) fn fresh_rng() -> rand::rngs::ThreadRng {
    rand::thread_rng()
}

/// Relies on Rng::gen_range: a value in `[low, high)`; it panics when
/// `low >= high`, which `requires` rules out.
#[verifier::external_body]
pub(crate) fn draw_between(rng: &mut rand::rngs::ThreadRng, low: i32, high: i32) -> (r: i32)
    requires
        low < high,
    ensures
        low <= r < high,
{
    rng.gen_range(low, high)
}

/// Relies on Rng::gen_ratio: true with chance `numerator / denominator`,
/// always true when the two are equal and always false when `numerator` is
/// zero; it panics when `denominator` is zero or below `numerator`.
#[verifier::external_body]
pub(crate) fn chance_of(rng: &mut rand::rngs::ThreadRng, numerator: u32, denominator: u32) -> (r: bool)
    requires
        0 < denominator,
        numerator <= denominator,
    ensures
        numerator == denominator ==> r,
        numerator == 0 ==> !r,
{
    rng.gen_ratio(numerator, denominator)
}

/// Relies on SliceRandom::choose: one element of a slice, which is `None`
/// only for an empty slice, ruled out by `requires`.
#[verifier::external_body]
pub(crate) fn choose_one<T: Copy>(rng: &mut rand::rngs::ThreadRng, options: &[T]) -> (r: T)
    requires
        options@.len() > 0,
    ensures
        options@.contains(r),
{
    *options.choose(rng).unwrap()
}

} // verus!
