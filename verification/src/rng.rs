//! The source of randomness.
//!
//! Nothing in this file is proved. Each item states, of a function of the
//! `rand` crate, what that crate's source and documentation show; the rest of
//! the library is verified against these statements.

use rand::Rng;
use vstd::prelude::*;

verus! {

/// `rand::rngs::ThreadRng`, the handle to the generator that `rand` keeps for
/// each thread. The library only passes it on; nothing is known of its state.
#[verifier::external_type_specification]
#[verifier::external_body]
pub struct ExThreadRng(rand::rngs::ThreadRng);

/// `rand::thread_rng` hands out the calling thread's generator. Nothing is
/// claimed of the handle it returns. In `rand`'s source the call panics only
/// where the operating system fails to seed the generator on first use.
pub assume_specification[ rand::thread_rng ]() -> (rng: rand::rngs::ThreadRng);

/// `rand::Rng::gen_range` on a `ThreadRng`, drawing an `isize`. By the crate's
/// documentation the value lies in the half-open range from `low` (included)
/// to `high` (excluded), and the call panics where `low >= high`. Which value
/// of the range comes out is left open: two calls may differ.
#[verifier::external_body]
pub(crate) fn gen_range_isize(
    rng: &mut rand::rngs::ThreadRng,
    low: isize,
    high: isize,
) -> (value: isize)
    requires
        low < high,
    ensures
        low <= value < high,
{
    rng.gen_range(low, high)
}

/// `rand::Rng::gen_range` on a `ThreadRng`, drawing a `usize`. By the crate's
/// documentation the value lies in the half-open range from `low` (included)
/// to `high` (excluded), and the call panics where `low >= high`. Which value
/// of the range comes out is left open: two calls may differ.
#[verifier::external_body]
pub(crate) fn gen_range_usize(
    rng: &mut rand::rngs::ThreadRng,
    low: usize,
    high: usize,
) -> (value: usize)
    requires
        low < high,
    ensures
        low <= value < high,
{
    rng.gen_range(low, high)
}

} // verus!
