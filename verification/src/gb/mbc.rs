//! Mapper-less cartridges, MBC1 and MBC5.
use vstd::prelude::*;
use crate::bytes::{copy_of, copy_prefix, filled, overlay};
use crate::state::{Reader, StateError, Writer, bool_byte};
use vstd::bytes::{spec_u16_to_le_bytes, spec_u16_from_le_bytes, lemma_auto_spec_u16_to_from_le_bytes};

verus! {

/// RAM size in bytes from header byte 0x149.
pub fn ram_size(code: u8) -> (n: usize)
    ensures
        n == (if code == 0x01 {
            0x800usize
        } else if code == 0x02 {
            0x2000
        } else if code == 0x03 {
            0x8000
        } else if code == 0x04 {
            0x20000
        } else if code == 0x05 {
            0x10000
        } else {
            0
        }),
{
    match code {
        0x01 => 0x800,
        0x02 => 0x2000,
        0x03 => 0x8000,
        0x04 => 0x20000,
        0x05 => 0x10000,
        _ => 0,
    }
}

/// Number of 16 KiB ROM banks (at least one).
pub open spec fn bank_count(rom_len: nat) -> nat {
    if rom_len / 0x4000 >= 1 { rom_len / 0x4000 } else { 1 }
}

pub fn rom_banks(rom_len: usize) -> (n: usize)
    ensures
        n == bank_count(rom_len as nat),
        n >= 1,
{
    let n = rom_len / 0x4000;
    if n >= 1 { n } else { 1 }
}

/// Offset into cartridge RAM for an address in 0xA000..=0xBFFF, given the
/// selected 8 KiB bank, wrapping at the RAM size.
pub open spec fn banked_ram_offset(bank: nat, addr: u16, ram_len: nat) -> int
    recommends
        ram_len > 0,
{
    ((bank * 0x2000 + (addr - 0xA000)) % (ram_len as int)) as int
}

/// The battery image of a mapper: its RAM, when it has a battery and RAM.
pub open spec fn battery_image(battery: bool, ram: Seq<u8>) -> Option<Seq<u8>> {
    if battery && ram.len() > 0 { Some(ram) } else { None }
}

/// Loading an image saved from RAM of the same size restores it exactly.
pub proof fn lemma_overlay_same_len(dst: Seq<u8>, src: Seq<u8>)
    requires
        dst.len() == src.len(),
    ensures
        overlay(dst, src) == src,
{
    assert(overlay(dst, src) =~= src);
}

// ---------------------------------------------------------------- RomOnly

pub struct RomOnlyView {
    pub rom: Seq<u8>,
    pub ram: Seq<u8>,
    pub battery: bool,
}

/// Mapper-less cartridge: header types 0x00 (no RAM) and 0x08/0x09 (RAM, unbanked).
pub struct RomOnly {
    rom: Vec<u8>,
    ram: Vec<u8>,
    battery: bool,
}

impl View for RomOnly {
    type V = RomOnlyView;

    closed spec fn view(&self) -> RomOnlyView {
        RomOnlyView { rom: self.rom@, ram: self.ram@, battery: self.battery }
    }
}

impl RomOnly {
    pub fn new(rom: Vec<u8>, ram_bytes: usize, battery: bool) -> (m: Self)
        ensures
            m@.rom == rom@,
            m@.ram == Seq::new(ram_bytes as nat, |_i: int| 0u8),
            m@.battery == battery,
    {
        RomOnly { rom, ram: filled(ram_bytes, 0), battery }
    }

    /// ROM byte at `addr`, or 0xFF past the end of the image.
    pub fn read_rom(&self, addr: u16) -> (r: u8)
        ensures
            r == if (addr as int) < self@.rom.len() { self@.rom[addr as int] } else { 0xFF },
    {
        if (addr as usize) < self.rom.len() {
            self.rom[addr as usize]
        } else {
            0xFF
        }
    }

    /// Writes to the ROM area are ignored.
    pub fn write_rom(&mut self, addr: u16, value: u8)
        ensures
            final(self)@ == old(self)@,
    {
    }

    pub fn read_ram(&self, addr: u16) -> (r: u8)
        requires
            addr >= 0xA000,
        ensures
            r == if self@.ram.len() == 0 {
                0xFF
            } else {
                self@.ram[banked_ram_offset(0, addr, self@.ram.len())]
            },
    {
        if self.ram.len() == 0 {
            return 0xFF;
        }
        let i = (addr as usize - 0xA000) % self.ram.len();
        self.ram[i]
    }

    pub fn write_ram(&mut self, addr: u16, value: u8)
        requires
            addr >= 0xA000,
        ensures
            final(self)@ == (RomOnlyView {
                ram: if old(self)@.ram.len() == 0 {
                    old(self)@.ram
                } else {
                    old(self)@.ram.update(banked_ram_offset(0, addr, old(self)@.ram.len()), value)
                },
                ..old(self)@
            }),
    {
        if self.ram.len() != 0 {
            let i = (addr as usize - 0xA000) % self.ram.len();
            self.ram.set(i, value);
        }
    }

    pub fn save(&self, now: u64) -> (r: Option<Vec<u8>>)
        ensures
            r.is_some() == battery_image(self@.battery, self@.ram).is_some(),
            r matches Some(v) ==> Some(v@) == battery_image(self@.battery, self@.ram),
    {
        if self.battery && self.ram.len() > 0 {
            Some(copy_of(self.ram.as_slice()))
        } else {
            None
        }
    }

    pub fn load(&mut self, data: &[u8], now: u64)
        ensures
            final(self)@ == (RomOnlyView { ram: overlay(old(self)@.ram, data@), ..old(self)@ }),
    {
        copy_prefix(&mut self.ram, data);
    }
}

// ---------------------------------------------------------------- MBC1

pub struct Mbc1View {
    pub rom: Seq<u8>,
    pub ram: Seq<u8>,
    pub battery: bool,
    pub ram_enable: bool,
    pub bank_lo: u8,
    pub bank2: u8,
    pub mode: bool,
}

/// The 16 KiB ROM bank MBC1 maps at `addr`.
pub open spec fn mbc1_rom_bank(v: Mbc1View, addr: u16) -> nat {
    let banks = bank_count(v.rom.len());
    if addr <= 0x3FFF {
        if v.mode { ((v.bank2 as nat) * 32) % banks } else { 0 }
    } else {
        ((((v.bank2 as usize) << 5usize) | (v.bank_lo as usize)) as nat) % banks
    }
}

pub open spec fn mbc1_rom_index(v: Mbc1View, addr: u16) -> int {
    mbc1_rom_bank(v, addr) * 0x4000 + (addr & 0x3FFF)
}

/// The RAM offset MBC1 maps at `addr`, or None when RAM is absent or disabled.
pub open spec fn mbc1_ram_index(v: Mbc1View, addr: u16) -> Option<int> {
    if v.ram.len() == 0 || !v.ram_enable {
        None
    } else {
        Some(banked_ram_offset(if v.mode { v.bank2 as nat } else { 0 }, addr, v.ram.len()))
    }
}

/// Effect of a write to the MBC1 control area.
pub open spec fn mbc1_control(v: Mbc1View, addr: u16, value: u8) -> Mbc1View {
    if addr <= 0x1FFF {
        Mbc1View { ram_enable: value & 0x0F == 0x0A, ..v }
    } else if addr <= 0x3FFF {
        Mbc1View { bank_lo: if value & 0x1F == 0 { 1 } else { value & 0x1F }, ..v }
    } else if addr <= 0x5FFF {
        Mbc1View { bank2: value & 0x03, ..v }
    } else {
        Mbc1View { mode: value & 0x01 != 0, ..v }
    }
}

/// MBC1: 5+2-bit ROM banking, optional banked RAM, two addressing modes.
pub struct Mbc1 {
    rom: Vec<u8>,
    ram: Vec<u8>,
    battery: bool,
    ram_enable: bool,
    bank_lo: u8,
    bank2: u8,
    mode: bool,
}

impl View for Mbc1 {
    type V = Mbc1View;

    closed spec fn view(&self) -> Mbc1View {
        Mbc1View {
            rom: self.rom@,
            ram: self.ram@,
            battery: self.battery,
            ram_enable: self.ram_enable,
            bank_lo: self.bank_lo,
            bank2: self.bank2,
            mode: self.mode,
        }
    }
}

impl Mbc1 {
    pub fn new(rom: Vec<u8>, ram_bytes: usize, battery: bool) -> (m: Self)
        ensures
            m@ == (Mbc1View {
                rom: rom@,
                ram: Seq::new(ram_bytes as nat, |_i: int| 0u8),
                battery,
                ram_enable: false,
                bank_lo: 1,
                bank2: 0,
                mode: false,
            }),
    {
        Mbc1 {
            rom,
            ram: filled(ram_bytes, 0),
            battery,
            ram_enable: false,
            bank_lo: 1,
            bank2: 0,
            mode: false,
        }
    }

    fn ram_index(&self, addr: u16) -> (r: Option<usize>)
        requires
            addr >= 0xA000,
        ensures
            r matches Some(i) ==> mbc1_ram_index(self@, addr) == Some(i as int) && i < self@.ram.len(),
            r is None ==> mbc1_ram_index(self@, addr) is None,
    {
        if self.ram.len() == 0 || !self.ram_enable {
            return None;
        }
        let bank: usize = if self.mode { self.bank2 as usize } else { 0 };
        Some((bank * 0x2000 + (addr as usize - 0xA000)) % self.ram.len())
    }

    pub fn read_rom(&self, addr: u16) -> (r: u8)
        requires
            mbc1_rom_index(self@, addr) < self@.rom.len(),
        ensures
            r == self@.rom[mbc1_rom_index(self@, addr)],
    {
        let banks = rom_banks(self.rom.len());
        let bank: usize = if addr <= 0x3FFF {
            if self.mode { ((self.bank2 as usize) * 32) % banks } else { 0 }
        } else {
            (((self.bank2 as usize) << 5usize) | (self.bank_lo as usize)) % banks
        };
        self.rom[bank * 0x4000 + (addr as usize & 0x3FFF)]
    }

    pub fn write_rom(&mut self, addr: u16, value: u8)
        ensures
            final(self)@ == mbc1_control(old(self)@, addr, value),
    {
        if addr <= 0x1FFF {
            self.ram_enable = value & 0x0F == 0x0A;
        } else if addr <= 0x3FFF {
            self.bank_lo = if value & 0x1F == 0 { 1 } else { value & 0x1F };
        } else if addr <= 0x5FFF {
            self.bank2 = value & 0x03;
        } else {
            self.mode = value & 0x01 != 0;
        }
    }

    pub fn read_ram(&self, addr: u16) -> (r: u8)
        requires
            addr >= 0xA000,
        ensures
            r == match mbc1_ram_index(self@, addr) {
                Some(i) => self@.ram[i],
                None => 0xFF,
            },
    {
        match self.ram_index(addr) {
            Some(i) => self.ram[i],
            None => 0xFF,
        }
    }

    pub fn write_ram(&mut self, addr: u16, value: u8)
        requires
            addr >= 0xA000,
        ensures
            final(self)@ == (Mbc1View {
                ram: match mbc1_ram_index(old(self)@, addr) {
                    Some(i) => old(self)@.ram.update(i, value),
                    None => old(self)@.ram,
                },
                ..old(self)@
            }),
    {
        if let Some(i) = self.ram_index(addr) {
            self.ram.set(i, value);
        }
    }

    pub fn save(&self, now: u64) -> (r: Option<Vec<u8>>)
        ensures
            r.is_some() == battery_image(self@.battery, self@.ram).is_some(),
            r matches Some(v) ==> Some(v@) == battery_image(self@.battery, self@.ram),
    {
        if self.battery && self.ram.len() > 0 {
            Some(copy_of(self.ram.as_slice()))
        } else {
            None
        }
    }

    pub fn load(&mut self, data: &[u8], now: u64)
        ensures
            final(self)@ == (Mbc1View { ram: overlay(old(self)@.ram, data@), ..old(self)@ }),
    {
        copy_prefix(&mut self.ram, data);
    }

    pub fn serialize(&self, w: &mut Writer)
        ensures
            final(w).buf@ == old(w).buf@ + self@.ram + seq![
                bool_byte(self@.ram_enable),
                self@.bank_lo,
                self@.bank2,
                bool_byte(self@.mode),
            ],
    {
        w.put_bytes(self.ram.as_slice());
        w.put_bool(self.ram_enable);
        w.put_u8(self.bank_lo);
        w.put_u8(self.bank2);
        w.put_bool(self.mode);
        assert(w.buf@ =~= old(w).buf@ + self@.ram + seq![
            bool_byte(self@.ram_enable),
            self@.bank_lo,
            self@.bank2,
            bool_byte(self@.mode),
        ]);
    }

    pub fn deserialize(&mut self, r: &mut Reader) -> (res: Result<(), StateError>)
        ensures
            ({
                let n = old(self)@.ram.len() as int;
                let s = old(r).rest();
                &&& (s.len() >= n + 4) ==> {
                    &&& res is Ok
                    &&& final(self)@ == (Mbc1View {
                        ram: s.take(n),
                        ram_enable: s[n] != 0,
                        bank_lo: s[n + 1],
                        bank2: s[n + 2],
                        mode: s[n + 3] != 0,
                        ..old(self)@
                    })
                    &&& final(r).rest() == s.skip(n + 4)
                }
                &&& (s.len() < n + 4) ==> res == Err::<(), StateError>(StateError::Truncated)
            }),
            final(self)@.rom == old(self)@.rom,
            final(self)@.ram.len() == old(self)@.ram.len(),
            final(self)@.battery == old(self)@.battery,
    {
        let n = self.ram.len();
        let bytes = r.get_bytes(n)?;
        let ram_enable = r.get_bool()?;
        let bank_lo = r.get_u8()?;
        let bank2 = r.get_u8()?;
        let mode = r.get_bool()?;
        copy_prefix(&mut self.ram, bytes);
        proof { lemma_overlay_same_len(old(self)@.ram, bytes@); }
        self.ram_enable = ram_enable;
        self.bank_lo = bank_lo;
        self.bank2 = bank2;
        self.mode = mode;
        Ok(())
    }
}

// ---------------------------------------------------------------- MBC5

pub struct Mbc5View {
    pub rom: Seq<u8>,
    pub ram: Seq<u8>,
    pub battery: bool,
    pub ram_enable: bool,
    pub rom_bank: u16,
    pub ram_bank: u8,
}

pub open spec fn mbc5_rom_index(v: Mbc5View, addr: u16) -> int {
    let bank: nat = if addr <= 0x3FFF { 0 } else { (v.rom_bank as nat) % bank_count(v.rom.len()) };
    bank * 0x4000 + (addr & 0x3FFF)
}

pub open spec fn mbc5_ram_index(v: Mbc5View, addr: u16) -> Option<int> {
    if v.ram.len() == 0 || !v.ram_enable {
        None
    } else {
        Some(banked_ram_offset(v.ram_bank as nat, addr, v.ram.len()))
    }
}

/// Effect of a write to the MBC5 control area.
pub open spec fn mbc5_control(v: Mbc5View, addr: u16, value: u8) -> Mbc5View {
    if addr <= 0x1FFF {
        Mbc5View { ram_enable: value & 0x0F == 0x0A, ..v }
    } else if addr <= 0x2FFF {
        Mbc5View { rom_bank: (v.rom_bank & 0x100) | value as u16, ..v }
    } else if addr <= 0x3FFF {
        Mbc5View { rom_bank: (v.rom_bank & 0xFF) | ((value as u16 & 1) << 8u16), ..v }
    } else if addr <= 0x5FFF {
        Mbc5View { ram_bank: value & 0x0F, ..v }
    } else {
        v
    }
}

/// MBC5: 9-bit ROM banking (bank 0 mappable), 16 RAM banks, battery.
pub struct Mbc5 {
    rom: Vec<u8>,
    ram: Vec<u8>,
    battery: bool,
    ram_enable: bool,
    rom_bank: u16,
    ram_bank: u8,
}

impl View for Mbc5 {
    type V = Mbc5View;

    closed spec fn view(&self) -> Mbc5View {
        Mbc5View {
            rom: self.rom@,
            ram: self.ram@,
            battery: self.battery,
            ram_enable: self.ram_enable,
            rom_bank: self.rom_bank,
            ram_bank: self.ram_bank,
        }
    }
}

impl Mbc5 {
    pub fn new(rom: Vec<u8>, ram_bytes: usize, battery: bool) -> (m: Self)
        ensures
            m@ == (Mbc5View {
                rom: rom@,
                ram: Seq::new(ram_bytes as nat, |_i: int| 0u8),
                battery,
                ram_enable: false,
                rom_bank: 1,
                ram_bank: 0,
            }),
    {
        Mbc5 { rom, ram: filled(ram_bytes, 0), battery, ram_enable: false, rom_bank: 1, ram_bank: 0 }
    }

    fn ram_index(&self, addr: u16) -> (r: Option<usize>)
        requires
            addr >= 0xA000,
        ensures
            r matches Some(i) ==> mbc5_ram_index(self@, addr) == Some(i as int) && i < self@.ram.len(),
            r is None ==> mbc5_ram_index(self@, addr) is None,
    {
        if self.ram.len() == 0 || !self.ram_enable {
            return None;
        }
        Some((self.ram_bank as usize * 0x2000 + (addr as usize - 0xA000)) % self.ram.len())
    }

    pub fn read_rom(&self, addr: u16) -> (r: u8)
        requires
            mbc5_rom_index(self@, addr) < self@.rom.len(),
        ensures
            r == self@.rom[mbc5_rom_index(self@, addr)],
    {
        let banks = rom_banks(self.rom.len());
        let bank: usize = if addr <= 0x3FFF { 0 } else { self.rom_bank as usize % banks };
        self.rom[bank * 0x4000 + (addr as usize & 0x3FFF)]
    }

    pub fn write_rom(&mut self, addr: u16, value: u8)
        ensures
            final(self)@ == mbc5_control(old(self)@, addr, value),
    {
        if addr <= 0x1FFF {
            self.ram_enable = value & 0x0F == 0x0A;
        } else if addr <= 0x2FFF {
            self.rom_bank = (self.rom_bank & 0x100) | value as u16;
        } else if addr <= 0x3FFF {
            self.rom_bank = (self.rom_bank & 0xFF) | ((value as u16 & 1) << 8u16);
        } else if addr <= 0x5FFF {
            self.ram_bank = value & 0x0F;
        }
    }

    pub fn read_ram(&self, addr: u16) -> (r: u8)
        requires
            addr >= 0xA000,
        ensures
            r == match mbc5_ram_index(self@, addr) {
                Some(i) => self@.ram[i],
                None => 0xFF,
            },
    {
        match self.ram_index(addr) {
            Some(i) => self.ram[i],
            None => 0xFF,
        }
    }

    pub fn write_ram(&mut self, addr: u16, value: u8)
        requires
            addr >= 0xA000,
        ensures
            final(self)@ == (Mbc5View {
                ram: match mbc5_ram_index(old(self)@, addr) {
                    Some(i) => old(self)@.ram.update(i, value),
                    None => old(self)@.ram,
                },
                ..old(self)@
            }),
    {
        if let Some(i) = self.ram_index(addr) {
            self.ram.set(i, value);
        }
    }

    pub fn save(&self, now: u64) -> (r: Option<Vec<u8>>)
        ensures
            r.is_some() == battery_image(self@.battery, self@.ram).is_some(),
            r matches Some(v) ==> Some(v@) == battery_image(self@.battery, self@.ram),
    {
        if self.battery && self.ram.len() > 0 {
            Some(copy_of(self.ram.as_slice()))
        } else {
            None
        }
    }

    pub fn load(&mut self, data: &[u8], now: u64)
        ensures
            final(self)@ == (Mbc5View { ram: overlay(old(self)@.ram, data@), ..old(self)@ }),
    {
        copy_prefix(&mut self.ram, data);
    }

    pub fn serialize(&self, w: &mut Writer)
        ensures
            final(w).buf@ == old(w).buf@ + self@.ram + seq![bool_byte(self@.ram_enable)]
                + spec_u16_to_le_bytes(self@.rom_bank) + seq![self@.ram_bank],
    {
        w.put_bytes(self.ram.as_slice());
        w.put_bool(self.ram_enable);
        w.put_u16(self.rom_bank);
        w.put_u8(self.ram_bank);
        assert(w.buf@ =~= old(w).buf@ + self@.ram + seq![bool_byte(self@.ram_enable)]
            + spec_u16_to_le_bytes(self@.rom_bank) + seq![self@.ram_bank]);
    }

    pub fn deserialize(&mut self, r: &mut Reader) -> (res: Result<(), StateError>)
        ensures
            ({
                let n = old(self)@.ram.len() as int;
                let s = old(r).rest();
                &&& (s.len() >= n + 4) ==> {
                    &&& res is Ok
                    &&& final(self)@ == (Mbc5View {
                        ram: s.take(n),
                        ram_enable: s[n] != 0,
                        rom_bank: spec_u16_from_le_bytes(s.subrange(n + 1, n + 3)),
                        ram_bank: s[n + 3],
                        ..old(self)@
                    })
                    &&& final(r).rest() == s.skip(n + 4)
                }
                &&& (s.len() < n + 4) ==> res == Err::<(), StateError>(StateError::Truncated)
            }),
            final(self)@.rom == old(self)@.rom,
            final(self)@.ram.len() == old(self)@.ram.len(),
            final(self)@.battery == old(self)@.battery,
    {
        let n = self.ram.len();
        let ghost s = r.rest();
        let bytes = r.get_bytes(n)?;
        let ram_enable = r.get_bool()?;
        let rom_bank = r.get_u16()?;
        proof {
            assert(s.skip(n as int).skip(1).take(2) =~= s.subrange(n + 1, n + 3));
        }
        let ram_bank = r.get_u8()?;
        proof {
            assert(s.skip(n as int).skip(1).skip(2).skip(1) =~= s.skip(n + 4));
        }
        copy_prefix(&mut self.ram, bytes);
        proof { lemma_overlay_same_len(old(self)@.ram, bytes@); }
        self.ram_enable = ram_enable;
        self.rom_bank = rom_bank;
        self.ram_bank = ram_bank;
        Ok(())
    }
}

/// Reading back what an MBC1 controller wrote, into a controller with as much
/// RAM, gives back its RAM, enable latch, bank registers and mode, and leaves
/// the bytes that followed.
pub proof fn lemma_mbc1_state_round_trip(v: Mbc1View, rest: Seq<u8>)
    ensures
        ({
            let n = v.ram.len() as int;
            let s = v.ram + seq![bool_byte(v.ram_enable), v.bank_lo, v.bank2, bool_byte(v.mode)]
                + rest;
            &&& s.len() >= n + 4
            &&& s.take(n) == v.ram
            &&& (s[n] != 0) == v.ram_enable
            &&& s[n + 1] == v.bank_lo
            &&& s[n + 2] == v.bank2
            &&& (s[n + 3] != 0) == v.mode
            &&& s.skip(n + 4) == rest
        }),
{
    let n = v.ram.len() as int;
    let s = v.ram + seq![bool_byte(v.ram_enable), v.bank_lo, v.bank2, bool_byte(v.mode)] + rest;
    assert(s.take(n) =~= v.ram);
    assert(s.skip(n + 4) =~= rest);
}

/// Reading back what an MBC5 controller wrote, into a controller with as much
/// RAM, gives back its RAM, enable latch and both bank registers, and leaves
/// the bytes that followed.
pub proof fn lemma_mbc5_state_round_trip(v: Mbc5View, rest: Seq<u8>)
    ensures
        ({
            let n = v.ram.len() as int;
            let s = v.ram + seq![bool_byte(v.ram_enable)] + spec_u16_to_le_bytes(v.rom_bank)
                + seq![v.ram_bank] + rest;
            &&& s.len() >= n + 4
            &&& s.take(n) == v.ram
            &&& (s[n] != 0) == v.ram_enable
            &&& spec_u16_from_le_bytes(s.subrange(n + 1, n + 3)) == v.rom_bank
            &&& s[n + 3] == v.ram_bank
            &&& s.skip(n + 4) == rest
        }),
{
    lemma_auto_spec_u16_to_from_le_bytes();
    let n = v.ram.len() as int;
    let s = v.ram + seq![bool_byte(v.ram_enable)] + spec_u16_to_le_bytes(v.rom_bank)
        + seq![v.ram_bank] + rest;
    assert(s.take(n) =~= v.ram);
    assert(s.subrange(n + 1, n + 3) =~= spec_u16_to_le_bytes(v.rom_bank));
    assert(s.skip(n + 4) =~= rest);
}

} // verus!
