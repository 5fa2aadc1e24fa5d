//! Trusted access to the process-wide random number generator.
//!
//! Shuffling and weight initialisation need randomness; these are the
//! only places where the library leaves verified code. Each wrapper
//! states only what holds of every possible outcome: a bound on the
//! drawn value.

use vstd::prelude::*;

use crate::fixed::FRAC;

verus! {

/// Relies on rand::Rng::gen_range over rand::thread_rng: the drawn value
/// lies in the half-open range `[0, bound)`. The range is non-empty, so
/// the call does not panic.
#[verifier::external_body]
pub(crate) fn rand_below(bound: usize) -> (r: usize)
    requires
        bound >= 1,
    ensures
        r < bound,
{
    rand::Rng::gen_range(&mut rand::thread_rng(), 0..bound)
}

/// Relies on rand::Rng::gen_range over rand::thread_rng: the drawn raw
/// value lies in `[0, FRAC]`, i.e. it stands for a scalar in `[0, 1]`,
/// as used for fresh weight initialisation.
#[verifier::external_body]
pub(crate) fn rand_unit_raw() -> (r: i64)
    ensures
        0 <= r <= FRAC,
{
    rand::Rng::gen_range(&mut rand::thread_rng(), 0i64..=FRAC)
}

} // verus!
