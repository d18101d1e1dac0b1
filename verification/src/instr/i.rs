//! Field extraction for immediate-format instruction words: the 12-bit
//! immediate in both sign-extended and zero-extended form.

use vstd::prelude::*;

verus! {

/// The immediate bits 31..20, zero-extended.
pub open spec fn spec_zx_imm(v: u32) -> u32 {
    v >> 20
}

/// The immediate bits 31..20, sign-extended to 32 bits.
pub open spec fn spec_sx_imm(v: u32) -> i32 {
    (v as i32) >> 20
}

/// The sign-extended immediate is the two's-complement reading of the
/// zero-extended one, and lies in the signed 12-bit range.
pub proof fn lemma_imm_relation(v: u32)
    by (bit_vector)
    ensures
        -2048 <= ((v as i32) >> 20) <= 2047,
        v >> 20 < 4096,
        ((v as i32) >> 20) as int == if v >> 20 < 2048 {
            (v >> 20) as int
        } else {
            (v >> 20) as int - 4096
        },
{
}

/// Extracts the zero-extended immediate.
pub fn zx_imm(v: u32) -> (r: u32)
    ensures
        r == spec_zx_imm(v),
        r < 4096,
{
    proof {
        lemma_imm_relation(v);
    }
    v >> 20
}

/// Extracts the sign-extended immediate.
pub fn sx_imm(v: u32) -> (r: i32)
    ensures
        r == spec_sx_imm(v),
        -2048 <= r <= 2047,
{
    proof {
        lemma_imm_relation(v);
    }
    (#[verifier::truncate] (v as i32)) >> 20
}

} // verus!
