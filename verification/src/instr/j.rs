//! Field extraction for jump-format instruction words: the signed 21-bit
//! jump displacement, always a multiple of two.

pub use super::r::rd;

use vstd::prelude::*;

verus! {

/// The jump displacement bits, before sign extension: bit 31 is the sign,
/// then bits 19..12, bit 20, bits 30..21, and a zero low bit.
pub open spec fn spec_offset_bits(v: u32) -> u32 {
    (((v >> 31) & 1) << 20) | (v & 0xff000) | (((v >> 20) & 1) << 11) | ((v >> 20) & 0x7fe)
}

/// The jump displacement, sign-extended to 32 bits.
pub open spec fn spec_offset(v: u32) -> i32 {
    if spec_offset_bits(v) < 0x10_0000 {
        spec_offset_bits(v) as i32
    } else {
        (spec_offset_bits(v) - 0x20_0000) as i32
    }
}

/// The raw jump displacement is a 21-bit even value.
pub proof fn lemma_offset_shape(v: u32)
    by (bit_vector)
    ensures
        ({
            let bits = (((v >> 31) & 1) << 20) | (v & 0xff000) | (((v >> 20) & 1) << 11) | ((v
                >> 20) & 0x7fe);
            bits < 0x20_0000 && bits % 2 == 0
        }),
{
}

/// Extracts the jump displacement.
pub fn offset(v: u32) -> (r: i32)
    ensures
        r == spec_offset(v),
        -0x10_0000 <= r <= 0x10_0000 - 2,
        r % 2 == 0,
{
    let bits: u32 = (((v >> 31) & 1) << 20) | (v & 0xff000) | (((v >> 20) & 1) << 11) | ((v
        >> 20) & 0x7fe);
    proof {
        lemma_offset_shape(v);
    }
    if bits < 0x10_0000 {
        bits as i32
    } else {
        (bits as i32) - 0x20_0000
    }
}

} // verus!
