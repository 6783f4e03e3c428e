//! Parameter derivation from the target false-positive rate.
//!
//! The rate is a binary64 value in the open interval (0, 1), handed to the
//! library as its IEEE 754 bit pattern, a plain `u64` (callers obtain it with
//! `f64::to_bits`). From that pattern the filter derives
//!
//! * `hash_count`: the least k with 2^-k at most the rate, that is the
//!   ceiling of the negated base-two logarithm of the rate; and
//! * `bit_count`: the item count scaled by `hash_count` and by the fixed
//!   over-provisioning constant 72/5, rounded down. Of the two scalings seen
//!   in bloom-filter practice (72/5 and 36/25) this library fixes the looser
//!   one: it spends tenfold memory to push the measured false-positive rate
//!   well under the configured target.
//!
//! A binary64 pattern in (0, 1) encodes the rational m / 2^s, where m is the
//! mantissa (with the implicit leading bit for normal values) and s the
//! scaling shift; `lemma_hash_count_brackets_rate` below pins the derived k
//! against that rational exactly.

use vstd::arithmetic::power2::{
    lemma2_to64, lemma2_to64_rest, lemma_pow2_strictly_increases, lemma_pow2_unfold, pow2,
};
use vstd::prelude::*;

verus! {

/// The biased exponent field of the pattern: its top eleven bits after the
/// sign bit.
pub open spec fn rate_exp(bits: u64) -> u64 {
    (bits >> 52) & 0x7FF
}

/// The fraction field of the pattern: its low fifty-two bits.
pub open spec fn rate_frac(bits: u64) -> u64 {
    bits & 0xF_FFFF_FFFF_FFFF
}

/// Whether the pattern encodes a value in the open interval (0, 1): the sign
/// bit is clear, the value is not zero, and the biased exponent stays below
/// the bias, which also rules out every value of one or more, infinities and
/// NaNs.
pub open spec fn valid_rate_bits(bits: u64) -> bool {
    &&& bits >> 63 == 0
    &&& rate_exp(bits) <= 1022
    &&& !(rate_exp(bits) == 0 && rate_frac(bits) == 0)
}

/// Checks a rate pattern: `true` iff it encodes a value in the open
/// interval (0, 1).
pub fn check_rate_bits(bits: u64) -> (ok: bool)
    ensures
        ok == valid_rate_bits(bits),
{
    let exp = (bits >> 52) & 0x7FF;
    bits >> 63 == 0 && exp <= 1022 && !(exp == 0 && bits & 0xF_FFFF_FFFF_FFFF == 0)
}

/// The floor of the base-two logarithm: the position of the highest set bit.
pub open spec fn floor_log2(n: nat) -> nat
    decreases n,
{
    if n <= 1 {
        0
    } else {
        1 + floor_log2(n / 2)
    }
}

/// The number of hash functions derived from a rate pattern: the ceiling of
/// the negated base-two logarithm of the encoded value. For a normal value
/// that is the negated unbiased exponent; for a subnormal one it is the
/// distance from the highest set fraction bit to the scale of the least
/// representable value.
pub open spec fn spec_hash_count(bits: u64) -> u16 {
    if rate_exp(bits) >= 1 {
        (1023 - rate_exp(bits)) as u16
    } else {
        (1074 - floor_log2(rate_frac(bits) as nat)) as u16
    }
}

/// The integer mantissa m of the encoded rational m / 2^s: the fraction
/// field, with the implicit leading bit added for normal values.
pub open spec fn rate_mantissa(bits: u64) -> nat {
    if rate_exp(bits) >= 1 {
        (pow2(52) + rate_frac(bits)) as nat
    } else {
        rate_frac(bits) as nat
    }
}

/// The scaling shift s of the encoded rational m / 2^s.
pub open spec fn rate_shift(bits: u64) -> int {
    if rate_exp(bits) >= 1 {
        52 + 1023 - rate_exp(bits)
    } else {
        1074
    }
}

/// The highest set bit of a positive number brackets it between two powers
/// of two.
pub proof fn lemma_floor_log2_brackets(n: nat)
    requires
        n >= 1,
    ensures
        pow2(floor_log2(n)) <= n < pow2(floor_log2(n) + 1),
    decreases n,
{
    if n == 1 {
        lemma2_to64();
    } else {
        lemma_floor_log2_brackets(n / 2);
        lemma_pow2_unfold(floor_log2(n) + 1);
        lemma_pow2_unfold(floor_log2(n));
    }
}

/// The fraction field fits in fifty-two bits.
proof fn lemma_rate_frac_bound(bits: u64)
    ensures
        rate_frac(bits) < pow2(52),
{
    assert(bits & 0xF_FFFF_FFFF_FFFF < 0x10_0000_0000_0000) by (bit_vector);
    lemma2_to64_rest();
}

/// For a positive value under one, the derived hash count k brackets the
/// encoded rational p == m / 2^s between consecutive powers of two,
/// 2^-k <= p < 2^(1-k); equivalently k is the ceiling of the negated
/// base-two logarithm of p, and it is at least one. Stated over the integer
/// mantissa and shift: 2^(s-k) <= m < 2^(s-k+1).
pub proof fn lemma_hash_count_brackets_rate(bits: u64)
    requires
        valid_rate_bits(bits),
    ensures
        ({
            let k = spec_hash_count(bits) as int;
            let s = rate_shift(bits);
            let m = rate_mantissa(bits);
            &&& 1 <= k <= s
            &&& pow2((s - k) as nat) <= m
            &&& m < pow2((s - k + 1) as nat)
        }),
{
    lemma_rate_frac_bound(bits);
    if rate_exp(bits) >= 1 {
        lemma2_to64_rest();
        lemma_pow2_unfold(53);
    } else {
        let fl = floor_log2(rate_frac(bits) as nat);
        lemma_floor_log2_brackets(rate_frac(bits) as nat);
        if fl > 52 {
            lemma_pow2_strictly_increases(52, fl);
        }
        assert(fl <= 51);
    }
}

/// Computes the hash count for a valid rate pattern: for a normal value the
/// negated unbiased exponent, read off the exponent field; for a subnormal
/// one, a scan for the highest set fraction bit.
pub fn get_hash_count(rate_bits: u64) -> (k: u16)
    requires
        valid_rate_bits(rate_bits),
    ensures
        k == spec_hash_count(rate_bits),
        1 <= k <= 1074,
{
    proof {
        lemma_hash_count_brackets_rate(rate_bits);
    }
    let exp = (rate_bits >> 52) & 0x7FF;
    if exp >= 1 {
        (1023 - exp) as u16
    } else {
        let frac = rate_bits & 0xF_FFFF_FFFF_FFFF;
        let mut l: u64 = 0;
        let mut m: u64 = frac;
        proof {
            lemma_rate_frac_bound(rate_bits);
            lemma_floor_log2_brackets(frac as nat);
            if floor_log2(frac as nat) > 52 {
                lemma_pow2_strictly_increases(52, floor_log2(frac as nat));
            }
        }
        while m >= 2
            invariant
                m >= 1,
                l + floor_log2(m as nat) == floor_log2(frac as nat),
                floor_log2(frac as nat) <= 51,
            decreases m,
        {
            m = m / 2;
            l = l + 1;
        }
        (1074 - l) as u16
    }
}

/// The number of bits derived for a hash count and an expected item count:
/// the product of the two, scaled by 72/5 and rounded down.
pub open spec fn spec_bit_count(n_hashes: u16, expected_item_count: u64) -> int {
    expected_item_count as int * 72 * (n_hashes as int) / 5
}

/// Computes the bit count for a hash count and an expected item count.
pub fn get_bit_count(n_hashes: u16, expected_item_count: u64) -> (m: usize)
    requires
        spec_bit_count(n_hashes, expected_item_count) <= usize::MAX as int,
    ensures
        m == spec_bit_count(n_hashes, expected_item_count),
{
    let scaled: u128 = (expected_item_count as u128) * 72;
    let count: u128 = n_hashes as u128;
    proof {
        assert(scaled * count <= u128::MAX) by (nonlinear_arith)
            requires
                scaled <= 0xFFFF_FFFF_FFFF_FFFF * 72,
                count <= 0xFFFF,
        ;
    }
    let wide: u128 = scaled * count;
    (wide / 5) as usize
}

} // verus!
