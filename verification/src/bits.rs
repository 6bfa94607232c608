//! Ranges and identities of the masks and shifts the emulators use.
use vstd::prelude::*;

verus! {

/// Masks and fields of a byte.
pub proof fn lemma_u8_bits(x: u8)
    by (bit_vector)
    ensures
        x & 1 <= 1,
        x & 3 <= 3,
        x & 7 <= 7,
        x & 0x0F <= 0x0F,
        x & 0x1F <= 0x1F,
        x & 0x3F < 64,
        x & 0x7F <= 0x7F,
        x & 0xBF <= 0xBF,
        x >> 4u8 <= 15,
        x >> 6u8 <= 3,
        (x >> 3u8) & 3 <= 3,
        (x >> 3u8) & 7 <= 7,
        (x >> 4u8) & 7 <= 7,
        (x >> 5u8) & 3 <= 3,
        (x & 0xF0) & 0x0F == 0,
        (0x80u8 | (x & 0x3F)) <= 0xBF,
        (x & 0x78) % 8 == 0,
        x & 0x78 < 0x80,
{
}

/// Masks, fields and bytes of a 16-bit value.
pub proof fn lemma_u16_bits(x: u16)
    by (bit_vector)
    ensures
        x & 1 <= 1,
        x & 3 <= 3,
        x & 0x0F <= 0x0F,
        x & 0xFF <= 0xFF,
        x & 0x0FFF <= 0x0FFF,
        x & 0x1FFF <= 0x1FFF,
        x & 0x3FFF < 0x4000,
        x & 0x3FF < 0x400,
        x & 0x1FF < 0x200,
        (x >> 2u16) & 3 <= 3,
        (x >> 8u16) & 0x1F < 32,
        (x >> 12u16) & 0xF < 16,
        (x >> 14u16) & 3 <= 3,
        (x >> 9u16) & 0x1F < 32,
        (x >> 10u16) & 3 <= 3,
        x & 31 < 32,
        (x >> 5u16) & 31 < 32,
        (x >> 10u16) & 31 < 32,
        x >> 0u16 == x,
        x >> 8u16 == x / 256,
        x & 0xFF == x % 256,
        (x as u8) == x % 256,
{
}

/// Masks, fields and bytes of a 32-bit value.
pub proof fn lemma_u32_bits(x: u32)
    by (bit_vector)
    ensures
        x & 1 <= 1,
        x & 3 <= 3,
        x & 0x1F < 0x20,
        x & 0xF < 16,
        x & 63 < 64,
        x & 0x3FF < 0x400,
        x & 1023 < 1024,
        x & 0x7FFF < 0x8000,
        x & 0xFFFF <= 0xFFFF,
        x & 0x1_FFFF < 0x2_0000,
        x & 0x3_FFFF < 0x4_0000,
        x & 0x1FF_FFFF < 0x200_0000,
        x & 0x1F_FFFF <= 0x1F_FFFF,
        x < 32 ==> 1u32 << x >= 1,
        x >> 24u32 == x / 0x100_0000,
        x >> 1u32 == x / 2,
        x & 1 == x % 2,
        x & !1u32 == x - x % 2,
        x & !3u32 == x - x % 4,
        x | 1u32 == (x - x % 2) + 1,
        (x as u8) == x % 256,
        ((x >> 8u32) as u8) == (x / 256) % 256,
        ((x >> 16u32) as u8) == (x / 65536) % 256,
        ((x >> 24u32) as u8) == x / 16777216,
{
}

/// Two halfwords joined high-first.
pub proof fn lemma_join32(hi: u16, lo: u16)
    by (bit_vector)
    ensures
        ((hi as u32) << 16u32 | lo as u32) == hi as u32 * 65536 + lo as u32,
{
}

/// Two bytes joined high-first.
pub proof fn lemma_join(hi: u8, lo: u8)
    by (bit_vector)
    ensures
        ((hi as u16) << 8u16 | lo as u16) == hi as u16 * 256 + lo as u16,
{
}

/// The register and field selectors of ARM and Thumb encodings.
pub proof fn lemma_opcode_fields(op: u32, h: u16)
    by (bit_vector)
    ensures
        op & 0xF < 16,
        (op >> 8u32) & 0xF < 16,
        (op >> 12u32) & 0xF < 16,
        (op >> 16u32) & 0xF < 16,
        (op >> 21u32) & 0xF < 16,
        (op >> 5u32) & 3 < 4,
        (op >> 7u32) & 0x1F < 32,
        op & 0xFF < 256,
        h & 7 < 8,
        (h >> 3u16) & 7 < 8,
        (h >> 6u16) & 7 < 8,
        (h >> 8u16) & 7 < 8,
        (h >> 11u16) & 3 < 4,
        (h >> 6u16) & 0x1F < 32,
        (h >> 6u16) & 0xF < 16,
        (h >> 8u16) & 3 < 4,
        (h >> 10u16) & 3 < 4,
        (h & 7) | ((h >> 4u16) & 8) < 16,
        (h >> 3u16) & 0xF < 16,
        h & 0xFF < 256,
        h >> 12u16 < 16,
        0x8000_0000u32 & 0x1F == 0,
        0x4000_0000u32 & 0x1F == 0,
        0x2000_0000u32 & 0x1F == 0,
        0x1000_0000u32 & 0x1F == 0,
{
}

/// Reinterpreting a signed word as unsigned and back gives it unchanged.
pub proof fn lemma_i32_as_u32(t: i32)
    by (bit_vector)
    ensures
        ((t as u32) as i32) == t,
{
}

} // verus!
