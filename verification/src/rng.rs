//! The randomness source: uniform integer draws and a fair coin, taken from
//! the thread-local generator of the `rand` crate.

use vstd::prelude::*;

verus! {

/// Relies on rand::Rng::gen_range over the thread-local generator: a uniform
/// draw from `[0, n)`; the call panics only on an empty range, which the
/// precondition rules out.
#[verifier::external_body]
pub fn rand_below(n: u32) -> (r: u32)
    requires
        n >= 1,
    ensures
        r < n,
{
    rand::Rng::gen_range(&mut rand::thread_rng(), 0..n)
}

/// Relies on rand::random::<bool>: a fair Bernoulli draw (the sign bit of one
/// output of the generator). Nothing can be promised of the outcome.
#[verifier::external_body]
pub fn rand_coin() -> (r: bool) {
    rand::random::<bool>()
}

} // verus!
