//! Field extraction for store-format instruction words: the 12-bit
//! immediate split across the two outer fields.

pub use super::r::{rs2, rs1, funct3};

use vstd::prelude::*;

verus! {

/// The store immediate: bits 31..25 over bits 11..7.
pub open spec fn spec_imm(v: u32) -> u32 {
    ((v >> 25) << 5) | ((v >> 7) & 0x1f)
}

/// The store immediate is a 12-bit value.
pub proof fn lemma_imm_bound(v: u32)
    by (bit_vector)
    ensures
        ((v >> 25) << 5) | ((v >> 7) & 0x1f) < 4096,
{
}

/// Extracts the store immediate.
pub fn imm(v: u32) -> (r: u32)
    ensures
        r == spec_imm(v),
        r < 4096,
{
    proof {
        lemma_imm_bound(v);
    }
    ((v >> 25) << 5) | ((v >> 7) & 0x1f)
}

} // verus!
