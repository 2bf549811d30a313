//! The randomness that a password is drawn with.
use vstd::prelude::*;

use rand::rngs::ThreadRng;
use rand::Rng;

verus! {

/// The thread-local random generator of `rand`.
#[verifier::external_type_specification]
#[verifier::external_body]
pub struct ExThreadRng(rand::rngs::ThreadRng);

/// Relies on `rand::thread_rng`: a handle to the thread-local generator. Nothing is
/// promised of what it will draw.
pub assume_specification[ rand::thread_rng ]() -> rand::rngs::ThreadRng;

/// Relies on `rand::Rng::gen_range`: a value of the half-open range `low..high`,
/// which must not be empty (it panics on an empty range).
#[verifier::external_body]
pub(crate) fn random_in_range(rng: &mut ThreadRng, low: u64, high: u64) -> (r: u64)
    requires
        low < high,
    ensures
        low <= r < high,
{
    rng.gen_range(low..high)
}

/// Relies on `rand::Rng::gen` for `bool`: a fair coin. Nothing is promised of the
/// outcome.
#[verifier::external_body]
pub(crate) fn random_bool(rng: &mut ThreadRng) -> bool {
    rng.gen::<bool>()
}

/// An index below `n`, drawn at random.
pub(crate) fn random_index(rng: &mut ThreadRng, n: usize) -> (r: usize)
    requires
        n > 0,
    ensures
        r < n,
{
    let r = random_in_range(rng, 0, n as u64);
    r as usize
}

} // verus!
