//! Trusted view of the bit-packed cell storage and of the randomness source.
//!
//! The engine stores its cells in a `fixedbitset::FixedBitSet`, one bit per
//! cell. The bitset is opaque to the verifier, so its contents are named by
//! the uninterpreted function [`bit_seq`], and each operation the engine uses
//! is wrapped in a function whose contract states, over that name, what the
//! crate's source shows the operation does.

use vstd::prelude::*;

use fixedbitset::FixedBitSet;

verus! {

#[verifier::external_type_specification]
#[verifier::external_body]
pub struct ExFixedBitSet(FixedBitSet);

/// The booleans a `FixedBitSet` holds, in index order, one per bit of its
/// length.
pub uninterp spec fn bit_seq(b: FixedBitSet) -> Seq<bool>;

/// Relies on `fixedbitset::FixedBitSet::with_capacity`: a bitset of `bits`
/// bits, all zero.
#[verifier::external_body]
pub(crate) fn bitset_new(bits: usize) -> (r: FixedBitSet)
    ensures
        bit_seq(r).len() == bits,
        forall|i: int| 0 <= i < bits ==> !bit_seq(r)[i],
{
    FixedBitSet::with_capacity(bits)
}

/// Relies on `fixedbitset::FixedBitSet::set`: writes one bit, leaving the
/// others and the length unchanged. The callee panics on an out-of-range
/// index, so the index is required to be in range.
#[verifier::external_body]
pub(crate) fn bitset_set(b: &mut FixedBitSet, i: usize, value: bool)
    requires
        i < bit_seq(*old(b)).len(),
    ensures
        bit_seq(*final(b)) == bit_seq(*old(b)).update(i as int, value),
{
    b.set(i, value)
}

/// Relies on `fixedbitset::FixedBitSet::contains`: whether bit `i` is set;
/// false for an index at or beyond the length.
#[verifier::external_body]
pub(crate) fn bitset_contains(b: &FixedBitSet, i: usize) -> (r: bool)
    ensures
        r == (i < bit_seq(*b).len() && bit_seq(*b)[i as int]),
{
    b.contains(i)
}

/// Relies on `<fixedbitset::FixedBitSet as Clone>::clone`: an independent
/// copy with identical bit values.
#[verifier::external_body]
pub(crate) fn bitset_clone(b: &FixedBitSet) -> (r: FixedBitSet)
    ensures
        bit_seq(r) == bit_seq(*b),
{
    b.clone()
}

/// Relies on `js_sys::Math::random`: a uniform draw from the half-open unit
/// interval, reported as whether it fell below one half. The result depends
/// on an external randomness source, so nothing is promised of it.
#[verifier::external_body]
pub(crate) fn random_boolean() -> bool {
    js_sys::Math::random().round() as u32 == 0
}

} // verus!
