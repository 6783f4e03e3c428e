//! The filter's bit array, backed by the outside `bit_set` crate.
//!
//! Verus refuses a direct declaration of `bit_set::BitSet` (its generic
//! parameter is bound by an outside trait), so the set is held in a private
//! field of an opaque struct, and every call into the crate goes through a
//! trusted wrapper whose contract speaks over `bit_set_elems` (which bits are
//! set) and `bit_set_span` (how many bits are addressable).

use vstd::prelude::*;

verus! {

/// A fixed-span array of bits, each unset or set, owned exclusively.
#[verifier::external_body]
pub struct BitArray {
    set: bit_set::BitSet,
}

pub uninterp spec fn bit_set_elems(s: BitArray) -> Set<usize>;

pub uninterp spec fn bit_set_span(s: BitArray) -> usize;

/// Relies on `bit_set::BitSet::with_capacity`: it builds a set with no
/// elements whose backing bit vector holds `nbits` addressable bits, all
/// unset.
#[verifier::external_body]
pub(crate) fn bit_set_with_capacity(nbits: usize) -> (s: BitArray)
    ensures
        bit_set_elems(s) == Set::<usize>::empty(),
        bit_set_span(s) == nbits,
{
    BitArray { set: bit_set::BitSet::with_capacity(nbits) }
}

/// Relies on `bit_set::BitSet::insert`: it sets the bit for `value`, leaves
/// every other bit as it was, and reports whether the bit was newly set.
/// Below the span of the backing bit vector it never grows that vector.
#[verifier::external_body]
pub(crate) fn bit_set_insert(s: &mut BitArray, value: usize) -> (newly: bool)
    requires
        value < bit_set_span(*old(s)),
    ensures
        bit_set_elems(*final(s)) == bit_set_elems(*old(s)).insert(value),
        bit_set_span(*final(s)) == bit_set_span(*old(s)),
        newly == !bit_set_elems(*old(s)).contains(value),
{
    s.set.insert(value)
}

/// Relies on `bit_set::BitSet::contains`: it reports whether the bit for
/// `value` is set, and `false` for any `value` at or beyond the span.
#[verifier::external_body]
pub(crate) fn bit_set_contains(s: &BitArray, value: usize) -> (present: bool)
    ensures
        present == bit_set_elems(*s).contains(value),
{
    s.set.contains(value)
}

} // verus!
