//! Trusted interface to `fixedbitset::FixedBitSet`, the packed bit
//! storage behind the grid.
//!
//! The verifier sees a `FixedBitSet` only through [`bits_of`], the
//! sequence of booleans it holds, and through the contracts of the
//! small wrappers below.

use fixedbitset::FixedBitSet;
use vstd::prelude::*;

verus! {

/// Declares fixedbitset's `FixedBitSet` so that it can stand in
/// signatures and fields; its values are opaque to the verifier.
#[verifier::external_type_specification]
#[verifier::external_body]
pub struct ExFixedBitSet(FixedBitSet);

/// The bits a `FixedBitSet` holds, one boolean per bit, in bit order.
pub uninterp spec fn bits_of(s: FixedBitSet) -> Seq<bool>;

/// Relies on `FixedBitSet::with_capacity`: a set with the given number
/// of bits, all initially clear.
#[verifier::external_body]
pub(crate) fn bitset_with_capacity(bits: usize) -> (r: FixedBitSet)
    ensures
        bits_of(r).len() == bits,
        forall|i: int| 0 <= i < bits ==> !bits_of(r)[i],
{
    FixedBitSet::with_capacity(bits)
}

/// Relies on `FixedBitSet::set`: writes one bit and leaves the rest;
/// it panics on an out-of-bounds bit, which the precondition rules out.
#[verifier::external_body]
pub(crate) fn bitset_set(s: &mut FixedBitSet, bit: usize, enabled: bool)
    requires
        bit < bits_of(*old(s)).len(),
    ensures
        bits_of(*final(s)) == bits_of(*old(s)).update(bit as int, enabled),
{
    s.set(bit, enabled)
}

/// Relies on `FixedBitSet::contains`: whether the bit is enabled.
#[verifier::external_body]
pub(crate) fn bitset_contains(s: &FixedBitSet, bit: usize) -> (r: bool)
    requires
        bit < bits_of(*s).len(),
    ensures
        r == bits_of(*s)[bit as int],
{
    s.contains(bit)
}

/// Relies on `FixedBitSet`'s `Clone` impl: it copies the block data and
/// the length, so the clone holds the same bits.
#[verifier::external_body]
pub(crate) fn bitset_clone(s: &FixedBitSet) -> (r: FixedBitSet)
    ensures
        bits_of(r) == bits_of(*s),
{
    s.clone()
}

/// Relies on `FixedBitSet::as_slice`: the backing `u32` blocks, 32 bits
/// per block, bit `i` stored at position `i % 32` of block `i / 32`.
#[verifier::external_body]
pub(crate) fn bitset_as_slice(s: &FixedBitSet) -> (r: &[u32])
    ensures
        32 * r@.len() >= bits_of(*s).len(),
        forall|i: int| 0 <= i < bits_of(*s).len() ==>
            (bits_of(*s)[i] <==> (r@[i / 32] >> ((i % 32) as u32)) & 1 == 1),
{
    s.as_slice()
}

} // verus!
