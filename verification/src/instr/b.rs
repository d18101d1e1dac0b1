//! Field extraction for branch-format instruction words: the signed 13-bit
//! branch displacement, always a multiple of two.

pub use super::r::{rs2, rs1, funct3};

use vstd::prelude::*;

verus! {

/// The branch displacement bits, before sign extension: bit 31 is the sign,
/// then bit 7, bits 30..25, bits 11..8, and a zero low bit.
pub open spec fn spec_imm_bits(v: u32) -> u32 {
    (((v >> 31) & 1) << 12) | (((v >> 7) & 1) << 11) | (((v >> 25) & 0x3f) << 5) | (((v >> 8)
        & 0xf) << 1)
}

/// The branch displacement, sign-extended to 32 bits.
pub open spec fn spec_imm(v: u32) -> i32 {
    if spec_imm_bits(v) < 0x1000 {
        spec_imm_bits(v) as i32
    } else {
        (spec_imm_bits(v) - 0x2000) as i32
    }
}

/// The raw branch displacement is a 13-bit even value.
pub proof fn lemma_imm_shape(v: u32)
    by (bit_vector)
    ensures
        ({
            let bits = (((v >> 31) & 1) << 12) | (((v >> 7) & 1) << 11) | (((v >> 25) & 0x3f)
                << 5) | (((v >> 8) & 0xf) << 1);
            bits < 0x2000 && bits % 2 == 0
        }),
{
}

/// Extracts the branch displacement.
pub fn imm(v: u32) -> (r: i32)
    ensures
        r == spec_imm(v),
        -4096 <= r <= 4094,
        r % 2 == 0,
{
    let bits: u32 = (((v >> 31) & 1) << 12) | (((v >> 7) & 1) << 11) | (((v >> 25) & 0x3f)
        << 5) | (((v >> 8) & 0xf) << 1);
    proof {
        lemma_imm_shape(v);
    }
    if bits < 0x1000 {
        bits as i32
    } else {
        (bits as i32) - 0x2000
    }
}

} // verus!
