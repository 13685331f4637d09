//! Pseudo-random numbers for picking the next thread.
use rand::rngs::SmallRng;
use rand::{RngCore, SeedableRng};
use vstd::prelude::*;

verus! {

/// Relies on rand's `SmallRng`: seeds it with `SeedableRng::seed_from_u64`
/// and returns its first `RngCore::next_u64`. The generator differs between
/// platforms, so nothing is promised of the value.
#[verifier::external_body]
pub fn next_u64(seed: u64) -> u64 {
    SmallRng::seed_from_u64(seed).next_u64()
}

} // verus!
