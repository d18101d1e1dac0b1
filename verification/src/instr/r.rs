//! Field extraction for register-format instruction words: the two source
//! registers, the destination register, and the two function codes.

use vstd::prelude::*;

verus! {

/// Bits 31..25 of the word.
pub open spec fn spec_funct7(v: u32) -> u32 {
    v >> 25
}

/// Bits 24..20 of the word: the second source register.
pub open spec fn spec_rs2(v: u32) -> u32 {
    (v >> 20) & 0x1f
}

/// Bits 19..15 of the word: the first source register.
pub open spec fn spec_rs1(v: u32) -> u32 {
    (v >> 15) & 0x1f
}

/// Bits 14..12 of the word.
pub open spec fn spec_funct3(v: u32) -> u32 {
    (v >> 12) & 0b111
}

/// Bits 11..7 of the word: the destination register.
pub open spec fn spec_rd(v: u32) -> u32 {
    (v >> 7) & 0x1f
}

/// The register fields are 5-bit indices and the function codes are 7 and 3
/// bits wide.
pub proof fn lemma_field_bounds(v: u32)
    by (bit_vector)
    ensures
        v >> 25 < 128,
        (v >> 20) & 0x1f < 32,
        (v >> 15) & 0x1f < 32,
        (v >> 12) & 0b111 < 8,
        (v >> 7) & 0x1f < 32,
{
}

/// Extracts `funct7`.
pub fn funct7(v: u32) -> (r: u32)
    ensures
        r == spec_funct7(v),
        r < 128,
{
    proof {
        lemma_field_bounds(v);
    }
    v >> 25
}

/// Extracts `rs2`.
pub fn rs2(v: u32) -> (r: u32)
    ensures
        r == spec_rs2(v),
        r < 32,
{
    proof {
        lemma_field_bounds(v);
    }
    (v >> 20) & 0x1f
}

/// Extracts `rs1`.
pub fn rs1(v: u32) -> (r: u32)
    ensures
        r == spec_rs1(v),
        r < 32,
{
    proof {
        lemma_field_bounds(v);
    }
    (v >> 15) & 0x1f
}

/// Extracts `funct3`.
pub fn funct3(v: u32) -> (r: u32)
    ensures
        r == spec_funct3(v),
        r < 8,
{
    proof {
        lemma_field_bounds(v);
    }
    (v >> 12) & 0b111
}

/// Extracts `rd`.
pub fn rd(v: u32) -> (r: u32)
    ensures
        r == spec_rd(v),
        r < 32,
{
    proof {
        lemma_field_bounds(v);
    }
    (v >> 7) & 0x1f
}

} // verus!
