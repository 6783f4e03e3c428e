//! A Bloom filter: a fixed-size bit array combined with a family of seeded
//! hash functions, supporting insertion and approximate membership queries
//! with a tunable false-positive rate and no false negatives.

pub mod bitset;
pub mod bloom;
pub mod hashing;
pub mod rate;
