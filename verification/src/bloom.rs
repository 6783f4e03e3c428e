//! The Bloom filter: a fixed-size bit array and a fixed family of seeded
//! hash functions. `put` sets the bit positions the hash functions select
//! for a value; `contains` answers whether all of them are set, so a value
//! that was put is always reported present (no false negatives), while a
//! value that was not may collide on every position (a false positive).

use crate::bitset::{
    bit_set_contains, bit_set_elems, bit_set_insert, bit_set_span, bit_set_with_capacity, BitArray,
};
use crate::hashing::{random_seed, StableHash};
use crate::rate::{
    check_rate_bits, get_bit_count, get_hash_count, spec_bit_count, spec_hash_count,
    valid_rate_bits,
};
use vstd::prelude::*;

verus! {

/// The one failure the filter reports: construction parameters outside
/// their domain, a false-positive rate not strictly between zero and one.
#[derive(Clone, Copy, Debug, PartialEq, Eq, Structural)]
pub enum FilterError {
    InvalidArgument,
}

/// The abstract state of a filter: its fixed parameters, its seeds, and the
/// set of bit positions currently set.
#[verifier::ext_equal]
pub struct FilterModel {
    pub n_hashes: u16,
    pub n_bits: usize,
    pub seeds: Seq<u64>,
    pub bits: Set<usize>,
}

impl FilterModel {
    /// A well-formed filter has at least one hash function and one bit, one
    /// seed per hash function, and only addressable positions set.
    pub open spec fn wf(self) -> bool {
        &&& self.n_hashes >= 1
        &&& self.n_bits >= 1
        &&& self.seeds.len() == self.n_hashes
        &&& forall|b: usize| self.bits.contains(b) ==> b < self.n_bits
    }
}

/// The bit position the i-th hash function selects for `value`: its seeded
/// hash, reduced modulo the filter's bit count.
pub open spec fn spec_index_at<T: StableHash>(m: FilterModel, value: T, i: int) -> usize {
    (value.spec_hash(m.seeds[i]) as int % m.n_bits as int) as usize
}

/// The bit positions the filter consults for `value`, one per hash
/// function, in seed order.
pub open spec fn spec_indices<T: StableHash>(m: FilterModel, value: T) -> Seq<usize> {
    Seq::new(m.seeds.len(), |i: int| spec_index_at(m, value, i))
}

/// The set of bit positions the filter consults for `value`.
pub open spec fn spec_index_set<T: StableHash>(m: FilterModel, value: T) -> Set<usize> {
    Set::new(|b: usize| exists|i: int| 0 <= i < m.seeds.len() && b == spec_index_at(m, value, i))
}

/// The state after inserting `value`: every consulted position set, every
/// other bit, the parameters and the seeds as they were.
pub open spec fn spec_put<T: StableHash>(m: FilterModel, value: T) -> FilterModel {
    FilterModel { bits: m.bits.union(spec_index_set(m, value)), ..m }
}

/// Whether the filter reports `value` present: every consulted position set.
pub open spec fn spec_contains<T: StableHash>(m: FilterModel, value: T) -> bool {
    forall|i: int| 0 <= i < m.seeds.len() ==> m.bits.contains(spec_index_at(m, value, i))
}

/// A probabilistic set-membership structure: a bit array of `n_bits` bits
/// and `n_hashes` seeded hash functions, fixed at construction.
pub struct BloomFilter {
    n_hashes: u16,
    n_bits: usize,
    bit_set: BitArray,
    seeds: Vec<u64>,
}

impl View for BloomFilter {
    type V = FilterModel;

    closed spec fn view(&self) -> FilterModel {
        FilterModel {
            n_hashes: self.n_hashes,
            n_bits: self.n_bits,
            seeds: self.seeds@,
            bits: bit_set_elems(self.bit_set),
        }
    }
}

impl BloomFilter {
    /// The filter's model is well formed and its bit array spans exactly
    /// `n_bits` positions.
    pub closed spec fn wf(&self) -> bool {
        &&& self@.wf()
        &&& bit_set_span(self.bit_set) == self@.n_bits
    }

    /// Builds a filter for a target false-positive rate — handed over as the
    /// IEEE 754 bit pattern of a binary64 value, see `crate::rate` — and an
    /// expected item count. A pattern whose value is not in the open
    /// interval (0, 1) is rejected; otherwise the hash and bit counts are
    /// derived, every bit starts unset, and one fresh random seed is drawn
    /// per hash function.
    pub fn new(rate_bits: u64, expected_item_count: u64) -> (r: Result<BloomFilter, FilterError>)
        requires
            expected_item_count >= 1,
            valid_rate_bits(rate_bits) ==> spec_bit_count(
                spec_hash_count(rate_bits),
                expected_item_count,
            ) <= usize::MAX as int,
        ensures
            match r {
                Ok(f) => {
                    &&& valid_rate_bits(rate_bits)
                    &&& f.wf()
                    &&& f@.n_hashes == spec_hash_count(rate_bits)
                    &&& f@.n_bits == spec_bit_count(spec_hash_count(rate_bits), expected_item_count)
                    &&& f@.seeds.len() == f@.n_hashes
                    &&& f@.bits == Set::<usize>::empty()
                },
                Err(e) => {
                    &&& e == FilterError::InvalidArgument
                    &&& !valid_rate_bits(rate_bits)
                },
            },
    {
        if !check_rate_bits(rate_bits) {
            return Err(FilterError::InvalidArgument);
        }
        let n_hashes = get_hash_count(rate_bits);
        proof {
            assert(expected_item_count as int * 72 * (n_hashes as int) >= 72) by (nonlinear_arith)
                requires
                    expected_item_count >= 1,
                    n_hashes >= 1,
            ;
        }
        let n_bits = get_bit_count(n_hashes, expected_item_count);
        let bit_set = bit_set_with_capacity(n_bits);
        let mut seeds: Vec<u64> = Vec::new();
        let mut i: u16 = 0;
        while i < n_hashes
            invariant
                i <= n_hashes,
                seeds@.len() == i as nat,
            decreases n_hashes - i,
        {
            let seed = random_seed();
            seeds.push(seed);
            i = i + 1;
        }
        Ok(BloomFilter { n_hashes, n_bits, bit_set, seeds })
    }

    /// The number of hash functions consulted per operation.
    pub fn n_hashes(&self) -> (k: u16)
        ensures
            k == self@.n_hashes,
    {
        self.n_hashes
    }

    /// The number of addressable bits in the underlying bit array.
    pub fn n_bits(&self) -> (m: usize)
        ensures
            m == self@.n_bits,
    {
        self.n_bits
    }

    /// Computes the bit positions consulted for `value`, one per hash
    /// function, in seed order: a function of the filter's fixed parameters
    /// and the value alone, so `put` and `contains` — and any repetition of
    /// either — agree on which bits matter.
    pub fn get_bits<T: StableHash>(&self, value: &T) -> (positions: Vec<usize>)
        requires
            self.wf(),
        ensures
            positions@ == spec_indices(self@, *value),
    {
        let mut positions: Vec<usize> = Vec::new();
        let mut idx: usize = 0;
        while idx < self.seeds.len()
            invariant
                self.wf(),
                idx <= self.seeds@.len(),
                positions@ == spec_indices(self@, *value).take(idx as int),
            decreases self.seeds@.len() - idx,
        {
            let h = value.stable_hash(self.seeds[idx]);
            let p = (h % (self.n_bits as u64)) as usize;
            positions.push(p);
            proof {
                assert(positions@ =~= spec_indices(self@, *value).take(idx as int + 1));
            }
            idx = idx + 1;
        }
        proof {
            assert(positions@ =~= spec_indices(self@, *value));
        }
        positions
    }

    /// Inserts `value`: sets every position its hash functions select and
    /// nothing else; the parameters and the seeds stay as they were. Once a
    /// bit is set no operation ever clears it.
    pub fn put<T: StableHash>(&mut self, value: &T)
        requires
            old(self).wf(),
        ensures
            final(self).wf(),
            final(self)@ == spec_put(old(self)@, *value),
    {
        let positions = self.get_bits(value);
        let ghost m0 = self@;
        let mut j: usize = 0;
        while j < positions.len()
            invariant
                self.wf(),
                self@.n_hashes == m0.n_hashes,
                self@.n_bits == m0.n_bits,
                self@.seeds == m0.seeds,
                j <= positions@.len(),
                positions@ == spec_indices(m0, *value),
                self@.bits == m0.bits.union(
                    Set::new(
                        |b: usize|
                            exists|i: int| 0 <= i < j && b == spec_index_at(m0, *value, i),
                    ),
                ),
            decreases positions@.len() - j,
        {
            let p = positions[j];
            assert(p == spec_index_at(m0, *value, j as int));
            assert(p < self@.n_bits);
            bit_set_insert(&mut self.bit_set, p);
            proof {
                assert(self@.bits =~= m0.bits.union(
                    Set::new(
                        |b: usize|
                            exists|i: int| 0 <= i < j + 1 && b == spec_index_at(m0, *value, i),
                    ),
                ));
            }
            j = j + 1;
        }
        proof {
            assert(self@.bits =~= m0.bits.union(spec_index_set(m0, *value)));
            assert(self@ =~= spec_put(m0, *value));
        }
    }

    /// Queries `value`: `true` iff every position its hash functions select
    /// is currently set. The filter is not changed.
    pub fn contains<T: StableHash>(&self, value: &T) -> (present: bool)
        requires
            self.wf(),
        ensures
            present == spec_contains(self@, *value),
    {
        let positions = self.get_bits(value);
        let mut j: usize = 0;
        while j < positions.len()
            invariant
                self.wf(),
                j <= positions@.len(),
                positions@ == spec_indices(self@, *value),
                forall|i: int| 0 <= i < j ==> self@.bits.contains(spec_index_at(self@, *value, i)),
            decreases positions@.len() - j,
        {
            if !bit_set_contains(&self.bit_set, positions[j]) {
                assert(!self@.bits.contains(spec_index_at(self@, *value, j as int)));
                return false;
            }
            j = j + 1;
        }
        true
    }
}

/// Law: inserting a value establishes membership — right after `put(v)`, a
/// query for `v` answers `true`.
pub proof fn lemma_put_establishes_contains<T: StableHash>(m: FilterModel, v: T)
    ensures
        spec_contains(spec_put(m, v), v),
{
    let m1 = spec_put(m, v);
    assert forall|i: int| 0 <= i < m1.seeds.len() implies m1.bits.contains(
        spec_index_at(m1, v, i),
    ) by {
        assert(spec_index_at(m1, v, i) == spec_index_at(m, v, i));
        assert(spec_index_set(m, v).contains(spec_index_at(m, v, i)));
    }
}

/// Law: membership is monotone — a filter with the same parameters and
/// seeds whose bit array covers another's keeps every membership the other
/// reports. Since `put` only adds bits, a value once reported present stays
/// present for every subsequent query.
pub proof fn lemma_contains_monotone<T: StableHash>(m1: FilterModel, m2: FilterModel, v: T)
    requires
        m1.seeds == m2.seeds,
        m1.n_bits == m2.n_bits,
        m1.bits.subset_of(m2.bits),
        spec_contains(m1, v),
    ensures
        spec_contains(m2, v),
{
    assert forall|i: int| 0 <= i < m2.seeds.len() implies m2.bits.contains(
        spec_index_at(m2, v, i),
    ) by {
        assert(spec_index_at(m2, v, i) == spec_index_at(m1, v, i));
        assert(m1.bits.contains(spec_index_at(m1, v, i)));
    }
}

/// Law: insertion only grows the bit array and touches nothing else, so the
/// two laws above chain over any sequence of insertions.
pub proof fn lemma_put_grows_bits<T: StableHash, U: StableHash>(m: FilterModel, v: T, w: U)
    ensures
        m.bits.subset_of(spec_put(m, w).bits),
        spec_put(m, w).seeds == m.seeds,
        spec_put(m, w).n_bits == m.n_bits,
        spec_put(m, w).n_hashes == m.n_hashes,
        spec_contains(m, v) ==> spec_contains(spec_put(m, w), v),
{
    if spec_contains(m, v) {
        lemma_contains_monotone(m, spec_put(m, w), v);
    }
}

/// Law: insertion is idempotent — inserting a value twice leaves exactly
/// the state that inserting it once leaves.
pub proof fn lemma_put_idempotent<T: StableHash>(m: FilterModel, v: T)
    ensures
        spec_put(spec_put(m, v), v) == spec_put(m, v),
{
    let m1 = spec_put(m, v);
    assert(spec_index_set(m1, v) =~= spec_index_set(m, v)) by {
        assert forall|b: usize| #[trigger] spec_index_set(m1, v).contains(b) implies
            spec_index_set(m, v).contains(b) by {
            let i = choose|i: int| 0 <= i < m1.seeds.len() && b == spec_index_at(m1, v, i);
            assert(spec_index_at(m, v, i) == b);
        }
        assert forall|b: usize| #[trigger] spec_index_set(m, v).contains(b) implies
            spec_index_set(m1, v).contains(b) by {
            let i = choose|i: int| 0 <= i < m.seeds.len() && b == spec_index_at(m, v, i);
            assert(spec_index_at(m1, v, i) == b);
        }
    }
    assert(spec_put(m1, v).bits =~= m1.bits);
    assert(spec_put(m1, v) =~= m1);
}

/// Law: a filter with no bit set contains nothing — with at least one hash
/// function, every query answers `false`.
pub proof fn lemma_empty_contains_nothing<T: StableHash>(m: FilterModel, v: T)
    requires
        m.wf(),
        m.bits == Set::<usize>::empty(),
    ensures
        !spec_contains(m, v),
{
    assert(!m.bits.contains(spec_index_at(m, v, 0)));
}

} // verus!
