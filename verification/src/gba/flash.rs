//! Flash save memory driven by the JEDEC-style command sequence GBA games
//! use to identify, erase and program the chip: 128 KiB in two 64 KiB banks,
//! or a single-bank 64 KiB part.
use vstd::prelude::*;
use crate::bits::{lemma_u8_bits, lemma_u32_bits};
use crate::bytes::{copy_prefix, fill_range, filled, overlay};

verus! {

pub const BANK: usize = 0x1_0000;

#[derive(Clone, Copy, PartialEq, Eq, Debug, Structural)]
pub enum FlashKind {
    /// 64 KiB, one bank (Panasonic MN63F805MNP).
    M512,
    /// 128 KiB, two banks (Sanyo LE26FV10N1TS).
    M1,
}

pub open spec fn kind_size(k: FlashKind) -> nat {
    match k {
        FlashKind::M512 => 0x1_0000,
        FlashKind::M1 => 0x2_0000,
    }
}

pub open spec fn manufacturer_id(k: FlashKind) -> u8 {
    match k {
        FlashKind::M512 => 0x32,
        FlashKind::M1 => 0x62,
    }
}

pub open spec fn device_id(k: FlashKind) -> u8 {
    match k {
        FlashKind::M512 => 0x1B,
        FlashKind::M1 => 0x13,
    }
}

#[derive(Clone, Copy, PartialEq, Eq, Debug, Structural)]
pub enum Phase {
    Ready,
    /// Saw 0xAA at 0x5555.
    Unlock1,
    /// Saw 0x55 at 0x2AAA.
    Unlock2,
    /// 0xA0: the next write is one data byte.
    Program,
    /// 0xB0: the next write selects the 64 KiB bank.
    Bank,
}

pub struct FlashView {
    pub kind: FlashKind,
    pub data: Seq<u8>,
    pub phase: Phase,
    pub id_mode: bool,
    pub erase_armed: bool,
    pub bank: nat,
}

pub open spec fn flash_wf(v: FlashView) -> bool {
    &&& v.data.len() == kind_size(v.kind)
    &&& v.bank * 0x1_0000 + 0x1_0000 <= v.data.len()
}

/// The 16-bit chip offset of a bus address.
pub open spec fn chip_offset(addr: u32) -> int {
    (addr & 0xFFFF) as int
}

pub open spec fn flash_read(v: FlashView, addr: u32) -> u8 {
    let off = chip_offset(addr);
    if v.id_mode && off == 0 {
        manufacturer_id(v.kind)
    } else if v.id_mode && off == 1 {
        device_id(v.kind)
    } else {
        v.data[v.bank * 0x1_0000 + off]
    }
}

/// The state after one byte write to the chip.
pub open spec fn flash_write(v: FlashView, addr: u32, val: u8) -> FlashView {
    let off = chip_offset(addr);
    match v.phase {
        Phase::Program => FlashView {
            data: v.data.update(v.bank * 0x1_0000 + off, val),
            phase: Phase::Ready,
            ..v
        },
        Phase::Bank => FlashView {
            bank: if v.kind == FlashKind::M1 { (val & 1) as nat } else { 0 },
            phase: Phase::Ready,
            ..v
        },
        Phase::Ready => if off == 0x5555 && val == 0xAA {
            FlashView { phase: Phase::Unlock1, ..v }
        } else {
            v
        },
        Phase::Unlock1 => FlashView {
            phase: if off == 0x2AAA && val == 0x55 { Phase::Unlock2 } else { Phase::Ready },
            ..v
        },
        Phase::Unlock2 => {
            let r = FlashView { phase: Phase::Ready, ..v };
            if off == 0x5555 {
                if val == 0x90 {
                    FlashView { id_mode: true, ..r }
                } else if val == 0xF0 {
                    FlashView { id_mode: false, ..r }
                } else if val == 0x80 {
                    FlashView { erase_armed: true, ..r }
                } else if val == 0xA0 {
                    FlashView { phase: Phase::Program, ..r }
                } else if val == 0xB0 {
                    FlashView { phase: Phase::Bank, ..r }
                } else if val == 0x10 && v.erase_armed {
                    FlashView {
                        data: Seq::new(v.data.len(), |_i: int| 0xFFu8),
                        erase_armed: false,
                        ..r
                    }
                } else {
                    r
                }
            } else if v.erase_armed && val == 0x30 {
                let base = v.bank * 0x1_0000 + (off / 0x1000) * 0x1000;
                FlashView {
                    data: Seq::new(
                        v.data.len(),
                        |i: int| if base <= i < base + 0x1000 { 0xFFu8 } else { v.data[i] },
                    ),
                    erase_armed: false,
                    ..r
                }
            } else {
                r
            }
        },
    }
}

pub struct Flash {
    kind: FlashKind,
    data: Vec<u8>,
    phase: Phase,
    id_mode: bool,
    erase_armed: bool,
    bank: usize,
}

impl View for Flash {
    type V = FlashView;

    closed spec fn view(&self) -> FlashView {
        FlashView {
            kind: self.kind,
            data: self.data@,
            phase: self.phase,
            id_mode: self.id_mode,
            erase_armed: self.erase_armed,
            bank: self.bank as nat,
        }
    }
}

impl Flash {
    /// A blank 128 KiB chip.
    pub fn new() -> (f: Self)
        ensures
            flash_wf(f@),
            f@ == (FlashView {
                kind: FlashKind::M1,
                data: Seq::new(0x2_0000, |_i: int| 0xFFu8),
                phase: Phase::Ready,
                id_mode: false,
                erase_armed: false,
                bank: 0,
            }),
    {
        Flash::with_kind(FlashKind::M1)
    }

    /// A blank chip of the given size.
    pub fn with_kind(kind: FlashKind) -> (f: Self)
        ensures
            flash_wf(f@),
            f@ == (FlashView {
                kind,
                data: Seq::new(kind_size(kind), |_i: int| 0xFFu8),
                phase: Phase::Ready,
                id_mode: false,
                erase_armed: false,
                bank: 0,
            }),
    {
        let n: usize = match kind {
            FlashKind::M512 => 0x1_0000,
            FlashKind::M1 => 0x2_0000,
        };
        Flash {
            kind,
            data: filled(n, 0xFF),
            phase: Phase::Ready,
            id_mode: false,
            erase_armed: false,
            bank: 0,
        }
    }

    pub fn read(&self, addr: u32) -> (r: u8)
        requires
            flash_wf(self@),
        ensures
            r == flash_read(self@, addr),
    {
        let off = (addr & 0xFFFF) as usize;
        proof { lemma_u32_bits(addr); }
        if self.id_mode && off == 0 {
            match self.kind {
                FlashKind::M512 => 0x32,
                FlashKind::M1 => 0x62,
            }
        } else if self.id_mode && off == 1 {
            match self.kind {
                FlashKind::M512 => 0x1B,
                FlashKind::M1 => 0x13,
            }
        } else {
            self.data[self.bank * BANK + off]
        }
    }

    pub fn write(&mut self, addr: u32, val: u8)
        requires
            flash_wf(old(self)@),
        ensures
            flash_wf(final(self)@),
            final(self)@ == flash_write(old(self)@, addr, val),
    {
        let off = (addr & 0xFFFF) as usize;
        proof { lemma_u32_bits(addr); }
        match self.phase {
            Phase::Program => {
                let i = self.bank * BANK + off;
                self.data.set(i, val);
                self.phase = Phase::Ready;
            },
            Phase::Bank => {
                self.bank = match self.kind {
                    FlashKind::M1 => (val & 1) as usize,
                    FlashKind::M512 => 0,
                };
                proof { lemma_u8_bits(val); }
                self.phase = Phase::Ready;
            },
            Phase::Ready => {
                if off == 0x5555 && val == 0xAA {
                    self.phase = Phase::Unlock1;
                }
            },
            Phase::Unlock1 => {
                self.phase = if off == 0x2AAA && val == 0x55 {
                    Phase::Unlock2
                } else {
                    Phase::Ready
                };
            },
            Phase::Unlock2 => {
                self.phase = Phase::Ready;
                if off == 0x5555 {
                    if val == 0x90 {
                        self.id_mode = true;
                    } else if val == 0xF0 {
                        self.id_mode = false;
                    } else if val == 0x80 {
                        self.erase_armed = true;
                    } else if val == 0xA0 {
                        self.phase = Phase::Program;
                    } else if val == 0xB0 {
                        self.phase = Phase::Bank;
                    } else if val == 0x10 && self.erase_armed {
                        let n = self.data.len();
                        fill_range(&mut self.data, 0, n, 0xFF);
                        assert(self.data@ =~= Seq::new(n as nat, |_i: int| 0xFFu8));
                        self.erase_armed = false;
                    }
                } else if self.erase_armed && val == 0x30 {
                    let base = self.bank * BANK + (off / 0x1000) * 0x1000;
                    fill_range(&mut self.data, base, base + 0x1000, 0xFF);
                    let ghost v = old(self)@;
                    assert(self.data@ =~= Seq::new(
                        v.data.len(),
                        |i: int| if base <= i < base + 0x1000 { 0xFFu8 } else { v.data[i] },
                    ));
                    self.erase_armed = false;
                }
            },
        }
    }

    /// The chip contents, for a battery save.
    pub fn bytes(&self) -> (r: &[u8])
        ensures
            r@ == self@.data,
    {
        self.data.as_slice()
    }

    /// Restores the chip contents from a battery save.
    pub fn load(&mut self, data: &[u8])
        requires
            flash_wf(old(self)@),
        ensures
            flash_wf(final(self)@),
            final(self)@ == (FlashView { data: overlay(old(self)@.data, data@), ..old(self)@ }),
    {
        copy_prefix(&mut self.data, data);
    }
}

impl Default for Flash {
    fn default() -> (f: Self)
        ensures
            f@ == (FlashView {
                kind: FlashKind::M1,
                data: Seq::new(0x2_0000, |_i: int| 0xFFu8),
                phase: Phase::Ready,
                id_mode: false,
                erase_armed: false,
                bank: 0,
            }),
    {
        Flash::new()
    }
}

/// A programmed byte reads back (outside ID mode) until something else is
/// written to the chip.
pub proof fn lemma_program_reads_back(v: FlashView, addr: u32, val: u8)
    requires
        flash_wf(v),
        v.phase == Phase::Program,
        !v.id_mode,
    ensures
        flash_read(flash_write(v, addr, val), addr) == val,
        flash_write(v, addr, val).phase == Phase::Ready,
{
    lemma_u32_bits(addr);
}

} // verus!
