//! The dense bit container behind the cell buffer.
//!
//! The container is `fixedbitset::FixedBitSet`. Nothing in this file is
//! proved: each item states, for the rest of the crate, what the container's
//! own source says of one of its operations.

use fixedbitset::{Block, FixedBitSet};
use vstd::arithmetic::power2::pow2;
use vstd::prelude::*;

verus! {

/// `fixedbitset::FixedBitSet`, an opaque value to the verifier.
#[verifier::external_type_specification]
#[verifier::external_body]
pub struct ExFixedBitSet(FixedBitSet);

/// The bits a `FixedBitSet` holds, in index order: entry `i` is `true` when
/// bit `i` is enabled. Its length is the set's length in bits.
pub uninterp spec fn bits_of(s: FixedBitSet) -> Seq<bool>;

/// Bit `k` of a machine word, counted from the least significant.
pub open spec fn word_bit(word: usize, k: nat) -> bool {
    (word as nat / pow2(k)) % 2 == 1
}

/// `words` holds `bits` packed densely: bit `i` is bit `i % usize::BITS` of
/// word `i / usize::BITS`, and there are just enough words to hold them all.
pub open spec fn packed(words: Seq<usize>, bits: Seq<bool>) -> bool {
    &&& words.len() == (bits.len() + usize::BITS - 1) / (usize::BITS as int)
    &&& forall|i: int|
        0 <= i < bits.len() ==> #[trigger] bits[i] == word_bit(
            words[i / (usize::BITS as int)],
            (i % (usize::BITS as int)) as nat,
        )
}

/// `FixedBitSet::with_capacity`: a set of `bits` bits, all of them clear.
pub assume_specification[ FixedBitSet::with_capacity ](bits: usize) -> (s: FixedBitSet)
    ensures
        bits_of(s) == Seq::new(bits as nat, |i: int| false),
;

/// `FixedBitSet::set`: bit `bit` becomes `enabled`, every other bit and the
/// length stay as they were. The method panics when `bit` is out of bounds,
/// so the contract asks for an index inside the set.
pub assume_specification[ FixedBitSet::set ](s: &mut FixedBitSet, bit: usize, enabled: bool)
    requires
        bit < bits_of(*old(s)).len(),
    ensures
        bits_of(*final(s)) == bits_of(*old(s)).update(bit as int, enabled),
;

/// `<FixedBitSet as Clone>::clone`: a set with the same length and the same bits.
pub assume_specification[ <FixedBitSet as Clone>::clone ](s: &FixedBitSet) -> (r: FixedBitSet)
    ensures
        bits_of(r) == bits_of(*s),
;

/// `FixedBitSet::as_slice`: the machine words that store the bits, densely
/// packed from the least significant bit of the first word on.
pub assume_specification[ FixedBitSet::as_slice ](s: &FixedBitSet) -> (words: &[Block])
    ensures
        packed(words@, bits_of(*s)),
;

/// `<FixedBitSet as Index<usize>>::index`, the `set[bit]` syntax: the value of
/// bit `bit`, and `false` for an index past the end (it does not panic).
#[verifier::external_body]
pub(crate) fn bit_at(s: &FixedBitSet, bit: usize) -> (b: bool)
    ensures
        b == (bit < bits_of(*s).len() && bits_of(*s)[bit as int]),
{
    s[bit]
}

} // verus!
