//! GBA bus access timing: per-region cost in cycles, WAITCNT-driven gamepak
//! waitstates, sequential/non-sequential classification.
use vstd::prelude::*;
use crate::bits::lemma_u16_bits;

verus! {

#[derive(Clone, Copy, PartialEq, Eq, Debug, Structural)]
pub enum Width {
    Bits8,
    Bits16,
    Bits32,
}

impl Width {
    pub fn bytes(self) -> (n: u32)
        ensures
            n == match self {
                Width::Bits8 => 1u32,
                Width::Bits16 => 2u32,
                Width::Bits32 => 4u32,
            },
    {
        match self {
            Width::Bits8 => 1,
            Width::Bits16 => 2,
            Width::Bits32 => 4,
        }
    }
}

/// Non-sequential waitstates for each 2-bit WAITCNT field value.
pub open spec fn n_wait(field: int) -> u32 {
    if field == 0 {
        4
    } else if field == 1 {
        3
    } else if field == 2 {
        2
    } else {
        8
    }
}

/// Sequential waitstates for wait region `ws` and its 1-bit field.
pub open spec fn s_wait(ws: int, bit: int) -> u32 {
    if bit == 1 {
        1
    } else if ws == 0 {
        2
    } else if ws == 1 {
        4
    } else {
        8
    }
}

/// Cycles for one gamepak-ROM access in wait region `ws`; a 32-bit access
/// is two 16-bit accesses, the second sequential.
pub open spec fn rom_cost(waitcnt: u16, ws: int, width: Width, seq: bool) -> u32 {
    let n = 1 + n_wait(((waitcnt >> ((2 + ws * 3) as u16)) & 3) as int);
    let s = 1 + s_wait(ws, ((waitcnt >> ((4 + ws * 3) as u16)) & 1) as int);
    let first = if seq { s } else { n };
    (if width == Width::Bits32 { first + s } else { first }) as u32
}

fn n_wait_of(field: u16) -> (w: u32)
    requires
        field < 4,
    ensures
        w == n_wait(field as int),
{
    match field {
        0 => 4,
        1 => 3,
        2 => 2,
        _ => 8,
    }
}

/// Cycles for one gamepak-ROM access. `ws` selects WS0/WS1/WS2.
pub fn rom_cycles(waitcnt: u16, ws: usize, width: Width, seq: bool) -> (c: u32)
    requires
        ws < 3,
    ensures
        c == rom_cost(waitcnt, ws as int, width, seq),
{
    let sh = (2 + ws * 3) as u16;
    let nf = (waitcnt >> sh) & 3;
    proof { lemma_u16_bits(waitcnt >> sh); }
    let n = 1 + n_wait_of(nf);
    let sh2 = (4 + ws * 3) as u16;
    let s_bit = (waitcnt >> sh2) & 1;
    let sw: u32 = if s_bit == 1 {
        1
    } else if ws == 0 {
        2
    } else if ws == 1 {
        4
    } else {
        8
    };
    let s = 1 + sw;
    let first = if seq { s } else { n };
    if width == Width::Bits32 { first + s } else { first }
}

/// Cycles for a gamepak-SRAM access (8-bit bus).
pub fn sram_cycles(waitcnt: u16) -> (c: u32)
    ensures
        c == 1 + n_wait((waitcnt & 3) as int),
{
    let f = waitcnt & 3;
    proof { lemma_u16_bits(waitcnt); }
    1 + n_wait_of(f)
}

/// Cycles for an access to `region` (address bits 24-31).
pub open spec fn access_cost(region: u32, waitcnt: u16, width: Width, seq: bool) -> u32 {
    if region == 0x00 || region == 0x03 || region == 0x04 || region == 0x07 {
        1
    } else if region == 0x02 {
        if width == Width::Bits32 { 6 } else { 3 }
    } else if region == 0x05 || region == 0x06 {
        if width == Width::Bits32 { 2 } else { 1 }
    } else if 0x08 <= region <= 0x0D {
        rom_cost(waitcnt, (region - 8) / 2, width, seq)
    } else if region == 0x0E || region == 0x0F {
        (1 + n_wait((waitcnt & 3) as int)) as u32
    } else {
        1
    }
}

pub fn access_cycles(region: u32, waitcnt: u16, width: Width, seq: bool) -> (c: u32)
    ensures
        c == access_cost(region, waitcnt, width, seq),
{
    if region == 0x00 || region == 0x03 || region == 0x04 || region == 0x07 {
        1
    } else if region == 0x02 {
        if width == Width::Bits32 { 6 } else { 3 }
    } else if region == 0x05 || region == 0x06 {
        if width == Width::Bits32 { 2 } else { 1 }
    } else if 0x08 <= region && region <= 0x0D {
        rom_cycles(waitcnt, (region as usize - 8) / 2, width, seq)
    } else if region == 0x0E || region == 0x0F {
        sram_cycles(waitcnt)
    } else {
        1
    }
}

/// A 32-bit gamepak access always costs more than a 16-bit one.
pub proof fn lemma_rom_wide_costs_more(waitcnt: u16, ws: int, seq: bool)
    requires
        0 <= ws < 3,
    ensures
        rom_cost(waitcnt, ws, Width::Bits32, seq) > rom_cost(waitcnt, ws, Width::Bits16, seq),
{
}

} // verus!
