//! Program status registers (CPSR/SPSR). The mode bits select the active
//! register bank; the T bit selects the ARM/Thumb decoder.
use vstd::prelude::*;

verus! {

/// Negative flag.
pub const N: u32 = 0x8000_0000;
/// Zero flag.
pub const Z: u32 = 0x4000_0000;
/// Carry / not-borrow flag.
pub const C: u32 = 0x2000_0000;
/// Overflow flag.
pub const V: u32 = 0x1000_0000;
/// IRQ disable.
pub const I: u32 = 0x80;
/// FIQ disable.
pub const F: u32 = 0x40;
/// Thumb state.
pub const T: u32 = 0x20;

#[derive(Clone, Copy, PartialEq, Eq, Debug, Structural)]
pub enum Mode {
    User,
    Fiq,
    Irq,
    Supervisor,
    Abort,
    Undefined,
    System,
}

/// The 5-bit encoding of a mode.
pub open spec fn mode_bits(m: Mode) -> u32 {
    match m {
        Mode::User => 0x10,
        Mode::Fiq => 0x11,
        Mode::Irq => 0x12,
        Mode::Supervisor => 0x13,
        Mode::Abort => 0x17,
        Mode::Undefined => 0x1B,
        Mode::System => 0x1F,
    }
}

/// Whether the low five bits of `bits` name a mode.
pub open spec fn valid_mode_bits(bits: u32) -> bool {
    let m = bits & 0x1F;
    m == 0x10 || m == 0x11 || m == 0x12 || m == 0x13 || m == 0x17 || m == 0x1B || m == 0x1F
}

/// The mode named by the low five bits of `bits`.
pub open spec fn mode_of(bits: u32) -> Mode
    recommends
        valid_mode_bits(bits),
{
    let m = bits & 0x1F;
    if m == 0x10 {
        Mode::User
    } else if m == 0x11 {
        Mode::Fiq
    } else if m == 0x12 {
        Mode::Irq
    } else if m == 0x13 {
        Mode::Supervisor
    } else if m == 0x17 {
        Mode::Abort
    } else if m == 0x1B {
        Mode::Undefined
    } else {
        Mode::System
    }
}

impl Mode {
    /// Decodes the low five bits. Other bit patterns are not a mode.
    pub fn from_bits(bits: u32) -> (m: Mode)
        requires
            valid_mode_bits(bits),
        ensures
            m == mode_of(bits),
    {
        match bits & 0x1F {
            0x10 => Mode::User,
            0x11 => Mode::Fiq,
            0x12 => Mode::Irq,
            0x13 => Mode::Supervisor,
            0x17 => Mode::Abort,
            0x1B => Mode::Undefined,
            0x1F => Mode::System,
            _ => vstd::pervasive::unreached(),
        }
    }

    /// The 5-bit encoding of the mode.
    pub fn bits(self) -> (b: u32)
        ensures
            b == mode_bits(self),
    {
        match self {
            Mode::User => 0x10,
            Mode::Fiq => 0x11,
            Mode::Irq => 0x12,
            Mode::Supervisor => 0x13,
            Mode::Abort => 0x17,
            Mode::Undefined => 0x1B,
            Mode::System => 0x1F,
        }
    }
}

/// Setting or clearing a flag outside the mode field keeps the mode.
pub proof fn lemma_flag_keeps_mode(x: u32, mask: u32)
    requires
        mask & 0x1F == 0,
    ensures
        (x | mask) & 0x1F == x & 0x1F,
        (x & !mask) & 0x1F == x & 0x1F,
{
    assert((x | mask) & 0x1F == x & 0x1F && (x & !mask) & 0x1F == x & 0x1F) by (bit_vector)
        requires mask & 0x1F == 0;
}

/// The T and I flags lie outside the mode field; System mode at reset is
/// ARM state.
pub proof fn lemma_flag_masks()
    by (bit_vector)
    ensures
        T & 0x1F == 0,
        I & 0x1F == 0,
        0x1Fu32 & T == 0,
{
}

/// Every mode's encoding decodes back to the mode, whatever the other bits.
pub proof fn lemma_mode_bits_round_trip(m: Mode, high: u32)
    ensures
        valid_mode_bits((high & !0x1Fu32) | mode_bits(m)),
        mode_of((high & !0x1Fu32) | mode_bits(m)) == m,
{
    let b = mode_bits(m);
    assert(((high & !0x1Fu32) | b) & 0x1F == b) by (bit_vector)
        requires b < 0x20;
}

#[derive(Clone, Copy, PartialEq, Eq, Debug, Structural)]
pub struct Psr(pub u32);

impl Psr {
    pub fn mode(self) -> (m: Mode)
        requires
            valid_mode_bits(self.0),
        ensures
            m == mode_of(self.0),
    {
        Mode::from_bits(self.0)
    }

    /// Whether the mode bits name a mode.
    pub fn valid(self) -> (b: bool)
        ensures
            b == valid_mode_bits(self.0),
    {
        let m = self.0 & 0x1F;
        m == 0x10 || m == 0x11 || m == 0x12 || m == 0x13 || m == 0x17 || m == 0x1B || m == 0x1F
    }

    pub fn thumb(self) -> (t: bool)
        ensures
            t == (self.0 & T != 0),
    {
        self.0 & T != 0
    }

    pub fn flag(self, mask: u32) -> (r: bool)
        ensures
            r == (self.0 & mask != 0),
    {
        self.0 & mask != 0
    }

    pub fn set_flag(&mut self, mask: u32, on: bool)
        ensures
            final(self).0 == if on { old(self).0 | mask } else { old(self).0 & !mask },
    {
        if on {
            self.0 = self.0 | mask;
        } else {
            self.0 = self.0 & !mask;
        }
    }
}

} // verus!
