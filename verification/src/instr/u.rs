//! Field extraction for upper-immediate-format instruction words: the
//! 20-bit immediate already placed in the high bits.

pub use super::r::rd;

use vstd::prelude::*;

verus! {

/// The upper immediate: the word with its low twelve bits cleared.
pub open spec fn spec_imm(v: u32) -> u32 {
    v & 0xffff_f000
}

/// The upper immediate has its low twelve bits clear.
pub proof fn lemma_imm_aligned(v: u32)
    by (bit_vector)
    ensures
        (v & 0xffff_f000) & 0xfff == 0,
{
}

/// Extracts the upper immediate.
pub fn imm(v: u32) -> (r: u32)
    ensures
        r == spec_imm(v),
        r & 0xfff == 0,
{
    proof {
        lemma_imm_aligned(v);
    }
    v & 0xffff_f000
}

} // verus!
