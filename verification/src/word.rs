//! The machine-word abstraction: a 32-bit unsigned word with a companion
//! signed view, two's-complement reinterpretation, offset-by-signed, and
//! little-endian byte composition.

use vstd::prelude::*;

verus! {

/// Number of bytes in a machine word.
pub const WORD_SIZE: usize = 4;

/// The signed value a word denotes under two's-complement interpretation.
pub open spec fn sx32(v: u32) -> int {
    if v < 0x8000_0000 {
        v as int
    } else {
        v as int - 0x1_0000_0000
    }
}

/// The word holding a signed value modulo 2^32.
pub open spec fn word_of_int(n: int) -> u32 {
    if n < 0 {
        (n + 0x1_0000_0000) as u32
    } else if n > u32::MAX {
        (n - 0x1_0000_0000) as u32
    } else {
        n as u32
    }
}

/// Unsigned wrapping sum, i.e. addition modulo 2^32.
pub open spec fn wrap_add(a: u32, b: u32) -> u32 {
    word_of_int(a + b)
}

/// Unsigned wrapping difference, i.e. subtraction modulo 2^32.
pub open spec fn wrap_sub(a: u32, b: u32) -> u32 {
    word_of_int(a - b)
}

/// The word displaced by a signed offset, modulo 2^32.
pub open spec fn word_offset(w: u32, d: i32) -> u32 {
    word_of_int(w + d)
}

/// Reinterpretation of a word as its companion signed type is bit-preserving.
pub fn to_signed(v: u32) -> (r: i32)
    ensures
        r == v as i32,
        r as int == sx32(v),
{
    proof {
        lemma_cast_u32_i32(v);
    }
    #[verifier::truncate] (v as i32)
}

/// Reinterpretation of a signed value as a word is bit-preserving.
pub fn from_signed(v: i32) -> (r: u32)
    ensures
        r == v as u32,
        sx32(r) == v as int,
{
    proof {
        lemma_cast_i32_u32(v);
    }
    #[verifier::truncate] (v as u32)
}

/// Displaces a word by a signed offset, modulo 2^32.
pub fn offset(w: u32, d: i32) -> (r: u32)
    ensures
        r == word_offset(w, d),
{
    w.wrapping_add_signed(d)
}

/// Truncates a word to a memory index (lossless: indices are at least 32 bits).
pub fn as_usize(v: u32) -> (r: usize)
    ensures
        r == v as usize,
        r == v as int,
{
    v as usize
}

/// Byte `k` (0 = least significant) of a word's little-endian representation.
pub open spec fn byte_of(v: u32, k: int) -> u8 {
    if k == 0 {
        (v & 0xff) as u8
    } else if k == 1 {
        ((v >> 8) & 0xff) as u8
    } else if k == 2 {
        ((v >> 16) & 0xff) as u8
    } else {
        ((v >> 24) & 0xff) as u8
    }
}

/// The word denoted by four bytes read little-endian.
pub open spec fn word_of_bytes(b0: u8, b1: u8, b2: u8, b3: u8) -> u32 {
    (b0 as u32) | ((b1 as u32) << 8) | ((b2 as u32) << 16) | ((b3 as u32) << 24)
}

/// The word denoted by two bytes read little-endian (zero-extended).
pub open spec fn half_of_bytes(b0: u8, b1: u8) -> u32 {
    (b0 as u32) | ((b1 as u32) << 8)
}

/// Extracts one little-endian byte of a word.
pub fn to_le_byte(v: u32, k: usize) -> (r: u8)
    requires
        k < 4,
    ensures
        r == byte_of(v, k as int),
{
    if k == 0 {
        #[verifier::truncate] ((v & 0xff) as u8)
    } else if k == 1 {
        #[verifier::truncate] (((v >> 8) & 0xff) as u8)
    } else if k == 2 {
        #[verifier::truncate] (((v >> 16) & 0xff) as u8)
    } else {
        #[verifier::truncate] (((v >> 24) & 0xff) as u8)
    }
}

/// Composes four little-endian bytes into a word.
pub fn from_le_bytes(b0: u8, b1: u8, b2: u8, b3: u8) -> (r: u32)
    ensures
        r == word_of_bytes(b0, b1, b2, b3),
{
    (b0 as u32) | ((b1 as u32) << 8) | ((b2 as u32) << 16) | ((b3 as u32) << 24)
}

/// Composes two little-endian bytes into a zero-extended word.
pub fn from_le_half(b0: u8, b1: u8) -> (r: u32)
    ensures
        r == half_of_bytes(b0, b1),
{
    (b0 as u32) | ((b1 as u32) << 8)
}

/// Casting a word to the signed companion type preserves the two's-complement
/// value.
pub proof fn lemma_cast_u32_i32(v: u32)
    by (bit_vector)
    ensures
        (v as i32) as int == if v < 0x8000_0000 {
            v as int
        } else {
            v as int - 0x1_0000_0000
        },
{
}

/// Casting a signed value to the word type preserves the two's-complement
/// value.
pub proof fn lemma_cast_i32_u32(v: i32)
    by (bit_vector)
    ensures
        (v as u32) as int == if v >= 0 {
            v as int
        } else {
            v as int + 0x1_0000_0000
        },
        (v as u32) as i32 == v,
{
}

/// Decomposing a word into little-endian bytes and recomposing them yields
/// the word back; the shorter widths recompose to the low bytes.
pub proof fn lemma_word_bytes_roundtrip(v: u32)
    by (bit_vector)
    ensures
        ((v & 0xff) as u8) as u32
            | ((((v >> 8) & 0xff) as u8) as u32) << 8
            | ((((v >> 16) & 0xff) as u8) as u32) << 16
            | ((((v >> 24) & 0xff) as u8) as u32) << 24 == v,
        ((v & 0xff) as u8) as u32 | ((((v >> 8) & 0xff) as u8) as u32) << 8 == v & 0xffff,
        ((v & 0xff) as u8) as u32 == v & 0xff,
{
}

/// A word composed from four bytes decomposes back into the same bytes, and
/// the composition of fewer bytes is bounded accordingly.
pub proof fn lemma_bytes_word_roundtrip(b0: u8, b1: u8, b2: u8, b3: u8)
    by (bit_vector)
    ensures
        ({
            let v = (b0 as u32) | ((b1 as u32) << 8) | ((b2 as u32) << 16) | ((b3 as u32) << 24);
            (v & 0xff) as u8 == b0 && ((v >> 8) & 0xff) as u8 == b1
                && ((v >> 16) & 0xff) as u8 == b2 && ((v >> 24) & 0xff) as u8 == b3
        }),
        ({
            let h = (b0 as u32) | ((b1 as u32) << 8);
            (h & 0xff) as u8 == b0 && ((h >> 8) & 0xff) as u8 == b1 && h < 0x10000
        }),
        b0 as u32 <= 0xff,
{
}

} // verus!
