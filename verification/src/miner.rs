//! The mining check: whether a block digest clears the difficulty mask.

use vstd::prelude::*;

use crate::ints::be16;

verus! {

/// The mask a difficulty selects: eight ones shifted so that `difficulty`
/// bits of the sixteen-bit window lie at or above the mask's low end.
pub open spec fn spec_difficulty_mask(difficulty: u32) -> u16
    recommends
        8 < difficulty < 16,
{
    (0xffu16 << (16 - difficulty) as u16) as u16
}

/// Whether the first two digest bytes clear the difficulty mask: xor-ing
/// them with the mask must give the mask back.
pub fn meets_difficulty(b0: u8, b1: u8, difficulty: u32) -> (r: bool)
    requires
        8 < difficulty < 16,
    ensures
        r == ((be16(seq![b0, b1]) as u16 ^ spec_difficulty_mask(difficulty)) == spec_difficulty_mask(
            difficulty,
        )),
        r == (be16(seq![b0, b1]) == 0),
{
    let first_two = crate::ints::u16_from_be(b0, b1);
    let shift: u16 = (16 - difficulty) as u16;
    let mask: u16 = 0xffu16 << shift;
    proof {
        assert(mask == spec_difficulty_mask(difficulty));
        assert(((first_two ^ mask) == mask) == (first_two == 0)) by (bit_vector);
    }
    (first_two ^ mask) == mask
}

} // verus!
