//! Trusted interface to the bit array that records which chunks have arrived.

use vstd::prelude::*;

use bit_array_rs::BitArray;

verus! {

#[verifier::external_type_specification]
#[verifier::external_body]
pub struct ExBitArray(BitArray);

/// The bits held by a `BitArray`, in index order.
pub uninterp spec fn bits_of(b: BitArray) -> Seq<bool>;

/// Relies on `bit_array_rs::BitArray::new`: allocates `bit_count` bits, all
/// clear. `new` panics when `bit_count` is zero, so that case is excluded.
#[verifier::external_body]
pub(crate) fn bit_array_new(bit_count: usize) -> (b: BitArray)
    requires
        bit_count > 0,
    ensures
        bits_of(b).len() == bit_count,
        forall|i: int| 0 <= i < bit_count ==> !bits_of(b)[i],
{
    BitArray::new(bit_count)
}

/// Relies on `bit_array_rs::BitArray::bit_count`: returns the number of bits.
#[verifier::external_body]
pub(crate) fn bit_array_count(b: &BitArray) -> (r: usize)
    ensures
        r == bits_of(*b).len(),
{
    b.bit_count()
}

/// Relies on `bit_array_rs::BitArray::get`: reads one bit. `get` panics when
/// the index is out of bounds, so that case is excluded.
#[verifier::external_body]
pub(crate) fn bit_array_get(b: &BitArray, index: usize) -> (r: bool)
    requires
        index < bits_of(*b).len(),
    ensures
        r == bits_of(*b)[index as int],
{
    b.get(index)
}

/// Relies on `bit_array_rs::BitArray::set`: sets one bit and leaves the rest.
/// `set` panics when the index is out of bounds, so that case is excluded.
#[verifier::external_body]
pub(crate) fn bit_array_set(b: &mut BitArray, index: usize)
    requires
        index < bits_of(*old(b)).len(),
    ensures
        bits_of(*final(b)) == bits_of(*old(b)).update(index as int, true),
{
    b.set(index)
}

/// Relies on `bit_array_rs::BitArray::all_set`: true exactly when every bit
/// is set, which the crate tracks with a running count of set bits.
#[verifier::external_body]
pub(crate) fn bit_array_all_set(b: &BitArray) -> (r: bool)
    ensures
        r == (forall|i: int| 0 <= i < bits_of(*b).len() ==> bits_of(*b)[i]),
{
    b.all_set()
}

} // verus!
