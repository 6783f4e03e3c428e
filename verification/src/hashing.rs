//! Seeded hashing of values to 64-bit words.
//!
//! The filter needs a family of independent hash functions. Each member is a
//! fixed 64-bit mix function applied under a seed drawn at random when the
//! filter is built: determinism per seed and independence across seeds are
//! the required properties, cryptographic strength is not.

use std::collections::hash_map::{DefaultHasher, RandomState};
use std::hash::BuildHasher;
use std::hash::Hasher;
use vstd::prelude::*;

verus! {

/// One round of the finalizer: xor-shift, then a wrapping multiply.
pub open spec fn spec_mix_round(z: u64, shift: u64, factor: u64) -> u64 {
    vstd::wrapping::u64_specs::wrapping_mul(z ^ (z >> shift), factor)
}

/// The 64-bit hash of `key` under `seed`: the key is spread by a wrapping
/// multiply, folded into the seed, and finished by two xor-shift/multiply
/// rounds and a final xor-shift.
pub open spec fn spec_seeded_hash(seed: u64, key: u64) -> u64 {
    let z0 = vstd::wrapping::u64_specs::wrapping_add(
        seed,
        vstd::wrapping::u64_specs::wrapping_mul(key, 0x9E3779B97F4A7C15),
    );
    let z1 = spec_mix_round(z0, 30, 0xBF58476D1CE4E5B9);
    let z2 = spec_mix_round(z1, 27, 0x94D049BB133111EB);
    z2 ^ (z2 >> 31)
}

/// Computes the seeded 64-bit hash of `key`.
pub fn seeded_hash(seed: u64, key: u64) -> (r: u64)
    ensures
        r == spec_seeded_hash(seed, key),
{
    let z0 = seed.wrapping_add(key.wrapping_mul(0x9E3779B97F4A7C15));
    let z1 = (z0 ^ (z0 >> 30u64)).wrapping_mul(0xBF58476D1CE4E5B9);
    let z2 = (z1 ^ (z1 >> 27u64)).wrapping_mul(0x94D049BB133111EB);
    z2 ^ (z2 >> 31u64)
}

/// A value the filter can hash: it yields a stable 64-bit hash for each seed,
/// the same on every call within and across filters.
pub trait StableHash {
    /// The hash of this value under `seed`.
    spec fn spec_hash(&self, seed: u64) -> u64;

    /// Computes the hash of this value under `seed`.
    fn stable_hash(&self, seed: u64) -> (r: u64)
        ensures
            r == self.spec_hash(seed),
    ;
}

impl StableHash for u64 {
    open spec fn spec_hash(&self, seed: u64) -> u64 {
        spec_seeded_hash(seed, *self)
    }

    fn stable_hash(&self, seed: u64) -> (r: u64)
        ensures
            r == self.spec_hash(seed),
    {
        seeded_hash(seed, *self)
    }
}

impl StableHash for char {
    open spec fn spec_hash(&self, seed: u64) -> u64 {
        spec_seeded_hash(seed, *self as u64)
    }

    fn stable_hash(&self, seed: u64) -> (r: u64)
        ensures
            r == self.spec_hash(seed),
    {
        seeded_hash(seed, *self as u64)
    }
}

/// Relies on `std::collections::hash_map::RandomState::new`: it draws a
/// hasher state with fresh random keys; nothing is promised of the outcome.
#[verifier::external_body]
fn fresh_random_state() -> RandomState {
    RandomState::new()
}

/// Relies on `std::hash::BuildHasher::build_hasher` for `RandomState`: it
/// yields a hasher primed with the state's random keys; nothing is promised
/// of the hasher's write record.
#[verifier::external_body]
fn state_hasher(state: &RandomState) -> DefaultHasher {
    state.build_hasher()
}

/// Draws one seed from the process's random hasher state. Two calls may
/// return any two words: nothing is promised of the value.
pub(crate) fn random_seed() -> u64 {
    let state = fresh_random_state();
    let hasher = state_hasher(&state);
    hasher.finish()
}

} // verus!
