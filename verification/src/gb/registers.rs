//! SM83 register file. Flag bits live in F's high nibble; the low nibble
//! is hardwired to zero on real hardware, so every F write through the
//! setters masks it.
use vstd::prelude::*;
use crate::bits::{lemma_u8_bits, lemma_u16_bits, lemma_join};

verus! {

/// Zero flag.
pub const Z: u8 = 0x80;
/// Subtract flag.
pub const N: u8 = 0x40;
/// Half-carry flag.
pub const H: u8 = 0x20;
/// Carry flag.
pub const C: u8 = 0x10;

/// The 16-bit value with high byte `hi` and low byte `lo`.
pub open spec fn pair(hi: u8, lo: u8) -> u16 {
    (hi as int * 256 + lo as int) as u16
}

/// High byte of a 16-bit value.
pub open spec fn hi_byte(v: u16) -> u8 {
    (v / 256) as u8
}

/// Low byte of a 16-bit value.
pub open spec fn lo_byte(v: u16) -> u8 {
    (v % 256) as u8
}

pub proof fn lemma_pair_bytes(v: u16)
    ensures
        pair(hi_byte(v), lo_byte(v)) == v,
        hi_byte(pair(hi_byte(v), lo_byte(v))) == hi_byte(v),
{
}

/// High byte of `v`, computed with a shift.
pub fn high(v: u16) -> (r: u8)
    ensures
        r == hi_byte(v),
{
    proof { lemma_u16_bits(v); }
    (v >> 8) as u8
}

/// Low byte of `v`, computed with a truncating cast.
pub fn low(v: u16) -> (r: u8)
    ensures
        r == lo_byte(v),
{
    proof { lemma_u16_bits(v); }
    v as u8
}

/// The 16-bit value `hi:lo`.
pub fn join(hi: u8, lo: u8) -> (r: u16)
    ensures
        r == pair(hi, lo),
{
    proof { lemma_join(hi, lo); }
    (hi as u16) << 8 | lo as u16
}

pub struct Registers {
    pub a: u8,
    pub f: u8,
    pub b: u8,
    pub c: u8,
    pub d: u8,
    pub e: u8,
    pub h: u8,
    pub l: u8,
    pub sp: u16,
    pub pc: u16,
}

/// The DMG register state when the boot ROM hands off to the cartridge.
pub open spec fn post_boot_regs() -> Registers {
    Registers {
        a: 0x01,
        f: 0xB0,
        b: 0x00,
        c: 0x13,
        d: 0x00,
        e: 0xD8,
        h: 0x01,
        l: 0x4D,
        sp: 0xFFFE,
        pc: 0x0100,
    }
}

impl Registers {
    /// Register state after the boot ROM hands off to the cartridge.
    pub fn new_post_boot() -> (r: Self)
        ensures
            r == post_boot_regs(),
            r.a == 0x01 && r.f == 0xB0 && r.b == 0x00 && r.c == 0x13,
            r.d == 0x00 && r.e == 0xD8 && r.h == 0x01 && r.l == 0x4D,
            r.sp == 0xFFFE && r.pc == 0x0100,
    {
        Registers {
            a: 0x01,
            f: 0xB0,
            b: 0x00,
            c: 0x13,
            d: 0x00,
            e: 0xD8,
            h: 0x01,
            l: 0x4D,
            sp: 0xFFFE,
            pc: 0x0100,
        }
    }

    pub fn af(&self) -> (r: u16)
        ensures
            r == pair(self.a, self.f),
    {
        join(self.a, self.f)
    }

    pub fn bc(&self) -> (r: u16)
        ensures
            r == pair(self.b, self.c),
    {
        join(self.b, self.c)
    }

    pub fn de(&self) -> (r: u16)
        ensures
            r == pair(self.d, self.e),
    {
        join(self.d, self.e)
    }

    pub fn hl(&self) -> (r: u16)
        ensures
            r == pair(self.h, self.l),
    {
        join(self.h, self.l)
    }

    /// Writes A and F; F's low nibble is forced to zero.
    pub fn set_af(&mut self, v: u16)
        ensures
            *final(self) == (Registers { a: hi_byte(v), f: lo_byte(v) & 0xF0, ..*old(self) }),
    {
        self.a = high(v);
        self.f = low(v) & 0xF0;
    }

    pub fn set_bc(&mut self, v: u16)
        ensures
            *final(self) == (Registers { b: hi_byte(v), c: lo_byte(v), ..*old(self) }),
    {
        self.b = high(v);
        self.c = low(v);
    }

    pub fn set_de(&mut self, v: u16)
        ensures
            *final(self) == (Registers { d: hi_byte(v), e: lo_byte(v), ..*old(self) }),
    {
        self.d = high(v);
        self.e = low(v);
    }

    pub fn set_hl(&mut self, v: u16)
        ensures
            *final(self) == (Registers { h: hi_byte(v), l: lo_byte(v), ..*old(self) }),
    {
        self.h = high(v);
        self.l = low(v);
    }

    /// True when any bit of `mask` is set in F.
    pub fn flag(&self, mask: u8) -> (r: bool)
        ensures
            r == (self.f & mask != 0),
    {
        self.f & mask != 0
    }

    /// Sets or clears the bits of `mask` in F, then clears F's low nibble.
    pub fn set_flag(&mut self, mask: u8, on: bool)
        ensures
            *final(self) == (Registers {
                f: (if on { old(self).f | mask } else { old(self).f & !mask }) & 0xF0,
                ..*old(self)
            }),
    {
        if on {
            self.f = self.f | mask;
        } else {
            self.f = self.f & !mask;
        }
        self.f = self.f & 0xF0;
    }
}

/// Writing a register pair and reading it back gives the value written;
/// for AF the flag register's low nibble reads back as zero.
pub proof fn lemma_pairs_round_trip(r: Registers, v: u16)
    ensures
        pair(hi_byte(v), lo_byte(v)) == v,
        pair(hi_byte(v), lo_byte(v) & 0xF0) == v & 0xFFF0,
        (lo_byte(v) & 0xF0) & 0x0F == 0,
{
    let lo = lo_byte(v);
    assert(lo == v % 256);
    assert((v & 0xFFF0) == (v / 256) * 256 + ((v % 256) as u8 & 0xF0u8)) by (bit_vector);
    lemma_u8_bits(lo);
}

} // verus!
