//! What this library assumes of `fixedbitset::FixedBitSet`.
//!
//! Nothing in this file is proved. Each item states, over the sequence of
//! bits that a set holds, what the method of that name does.

use fixedbitset::FixedBitSet;
use vstd::prelude::*;

verus! {

#[verifier::external_type_specification]
#[verifier::external_body]
pub struct ExFixedBitSet(FixedBitSet);

/// The bits of a `FixedBitSet` in index order. Its length is the length of the
/// set in bits, as `FixedBitSet::len` reports it.
pub uninterp spec fn bits_of(set: FixedBitSet) -> Seq<bool>;

/// Bit `i` of a 32-bit block, counted from the least significant bit.
pub open spec fn block_bit(block: u32, i: u32) -> bool {
    block & (1u32 << i) != 0
}

/// `blocks` stores `bits` the way a `FixedBitSet` lays them out: 32 bits to a
/// block, bit `i` in block `i / 32` at position `i % 32`, and just enough
/// blocks to hold them all.
pub open spec fn packed(blocks: Seq<u32>, bits: Seq<bool>) -> bool {
    &&& blocks.len() == (bits.len() + 31) / 32
    &&& forall|i: int|
        0 <= i < bits.len() ==> block_bit(blocks[i / 32], (i % 32) as u32) == #[trigger] bits[i]
}

/// `FixedBitSet::with_capacity` returns a set of `bits` bits, all of them
/// clear.
pub assume_specification[ FixedBitSet::with_capacity ](bits: usize) -> (set: FixedBitSet)
    ensures
        bits_of(set) == Seq::new(bits as nat, |i: int| false),
;

/// `FixedBitSet::set` writes `enabled` to bit `bit` and leaves every other bit
/// and the length as they were. It panics when `bit` is not below the length,
/// and only then; the precondition rules that out.
pub assume_specification[ FixedBitSet::set ](set: &mut FixedBitSet, bit: usize, enabled: bool)
    requires
        bit < bits_of(*old(set)).len(),
    ensures
        bits_of(*final(set)) == bits_of(*old(set)).update(bit as int, enabled),
;

/// `<FixedBitSet as Clone>::clone` copies the blocks and the length, so the
/// copy holds the same bits.
pub assume_specification[ <FixedBitSet as Clone>::clone ](set: &FixedBitSet) -> (copy: FixedBitSet)
    ensures
        bits_of(copy) == bits_of(*set),
;

/// `FixedBitSet::as_slice` hands out the blocks that back the set. Nothing is
/// claimed of the bits of the last block that lie beyond the set's length.
pub assume_specification<'a>[ FixedBitSet::as_slice ](set: &'a FixedBitSet) -> (blocks: &'a [u32])
    ensures
        packed(blocks@, bits_of(*set)),
;

/// Reads one bit through `<FixedBitSet as Index<usize>>::index`, which never
/// panics. The contract speaks only of positions below the set's length.
#[verifier::external_body]
pub(crate) fn read_bit(set: &FixedBitSet, i: usize) -> (enabled: bool)
    ensures
        i < bits_of(*set).len() ==> enabled == bits_of(*set)[i as int],
{
    set[i]
}

} // verus!
