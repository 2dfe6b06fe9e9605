//! What the library takes on trust about `fixedbitset::FixedBitSet`.
//!
//! The bit set is opaque to the verifier. Its contents are named by [`bits`],
//! and every method the library calls is given a contract over that name.

use fixedbitset::FixedBitSet;
use vstd::prelude::*;

verus! {

/// `fixedbitset::FixedBitSet`, declared so that it can stand in fields and
/// signatures. Nothing inside a value of it is visible to the verifier.
#[verifier::external_type_specification]
#[verifier::external_body]
pub struct ExFixedBitSet(fixedbitset::FixedBitSet);

/// The bits a `FixedBitSet` holds, in index order; its length is the set's
/// length in bits.
pub uninterp spec fn bits(s: FixedBitSet) -> Seq<bool>;

/// `FixedBitSet::with_capacity`: a set of `n` bits, all clear.
pub assume_specification[ FixedBitSet::with_capacity ](n: usize) -> (s: FixedBitSet)
    ensures
        bits(s) == Seq::new(n as nat, |i: int| false),
;

/// `FixedBitSet::contains`: for a bit inside the set, whether it is enabled.
/// Nothing is claimed for a bit outside it.
pub assume_specification[ FixedBitSet::contains ](s: &FixedBitSet, bit: usize) -> (enabled: bool)
    ensures
        bit < bits(*s).len() ==> enabled == bits(*s)[bit as int],
;

/// `FixedBitSet::set`: writes one bit and leaves the others alone. The method
/// panics when `bit` is out of bounds, so that is excluded.
pub assume_specification[ FixedBitSet::set ](s: &mut FixedBitSet, bit: usize, enabled: bool)
    requires
        bit < bits(*old(s)).len(),
    ensures
        bits(*final(s)) == bits(*old(s)).update(bit as int, enabled),
;

/// `FixedBitSet::as_slice`: the set as 32-bit blocks, bit `i` of the set being
/// bit `i % 32` of block `i / 32`. Nothing is claimed for the bits of the last
/// block that lie past the set's length.
pub assume_specification[ FixedBitSet::as_slice ](s: &FixedBitSet) -> (blocks: &[u32])
    ensures
        blocks@.len() == (bits(*s).len() + 31) / 32,
        forall|i: int|
            0 <= i < bits(*s).len() ==> #[trigger] bits(*s)[i] == block_bit(blocks@, i),
;

/// `<FixedBitSet as Clone>::clone`: a set with the same bits.
pub assume_specification[ <FixedBitSet as Clone>::clone ](s: &FixedBitSet) -> (t: FixedBitSet)
    ensures
        bits(t) == bits(*s),
;

/// `FixedBitSet::set_range` over the full range `..`: every bit of the set
/// takes the value `enabled`, and the length stays.
#[verifier::external_body]
pub(crate) fn set_all(s: &mut FixedBitSet, enabled: bool)
    ensures
        bits(*final(s)) == Seq::new(bits(*old(s)).len(), |i: int| enabled),
{
    s.set_range(.., enabled)
}

/// Whether bit `i` is set in a sequence of 32-bit blocks.
pub open spec fn block_bit(blocks: Seq<u32>, i: int) -> bool {
    (blocks[i / 32] >> ((i % 32) as u32)) & 1u32 == 1u32
}

} // verus!
