//! Cartridge loading and mapper (MBC) dispatch.
use vstd::prelude::*;
use crate::bytes::overlay;
use crate::bits::lemma_u16_bits;
use crate::gb::mbc::{
    RomOnly, RomOnlyView, Mbc1, Mbc1View, Mbc5, Mbc5View, ram_size, bank_count, banked_ram_offset,
    battery_image, mbc1_rom_index, mbc1_rom_bank, mbc1_ram_index, mbc1_control, mbc5_rom_index,
    mbc5_ram_index, mbc5_control,
};
use crate::gb::mbc3::{
    advance_each, SEC,
    Mbc3, Mbc3View, RtcView, mbc3_rom_index, mbc3_ram_index, mbc3_rtc_selected, mbc3_control,
    rtc_write, mbc3_image, load_fits, mbc3_loaded, mbc3_ticked,
};

verus! {

#[derive(Debug, Clone, Copy, PartialEq, Eq)]
pub enum CartError {
    TooSmall,
    Unsupported { code: u8, name: &'static str },
    /// The header claims no mapper but the ROM is too big to work without one.
    BadDump { code: u8, size_kb: usize },
}

/// The uppercase hexadecimal digit for `d`, which is below 16.
pub open spec fn hex_digit(d: int) -> char {
    if d < 10 {
        (('0' as int) + d) as char
    } else {
        (('A' as int) + d - 10) as char
    }
}

/// A byte as `{:#04X}` renders it: `0x` and two uppercase hex digits.
pub open spec fn hex_byte(b: u8) -> Seq<char> {
    seq!['0', 'x', hex_digit((b / 16) as int), hex_digit((b % 16) as int)]
}

/// A number in decimal, as `{}` renders it.
pub open spec fn decimal(n: nat) -> Seq<char>
    decreases n,
{
    if n < 10 {
        seq![(('0' as int) + n) as char]
    } else {
        decimal(n / 10).push((('0' as int) + n % 10) as char)
    }
}

pub open spec fn unsupported_message(code: u8, name: Seq<char>) -> Seq<char> {
    name + " (header type "@ + hex_byte(code) + ") is not yet supported"@
}

pub open spec fn bad_dump_message(code: u8, size_kb: usize) -> Seq<char> {
    "header type "@ + hex_byte(code) + " declares no mapper, but the ROM is "@ + decimal(
        size_kb as nat,
    ) + " KB \u{2014} impossible on real hardware; this is likely a bad dump, try a clean ROM"@
}

/// Renders the unsupported-mapper message with `format!`, which writes the
/// name, then the code as `{:#04X}` specifies: `0x` and two uppercase
/// hexadecimal digits (the width of four counts the prefix).
#[verifier::external_body]
fn unsupported_text(code: u8, name: &str) -> (s: String)
    ensures
        s@ == unsupported_message(code, name@),
{
    format!("{name} (header type {code:#04X}) is not yet supported")
}

/// Renders the bad-dump message with `format!`: the code as `{:#04X}`
/// specifies, the size in decimal as `{}` renders an integer.
#[verifier::external_body]
fn bad_dump_text(code: u8, size_kb: usize) -> (s: String)
    ensures
        s@ == bad_dump_message(code, size_kb),
{
    format!(
        "header type {code:#04X} declares no mapper, but the ROM is {size_kb} KB \u{2014} \
         impossible on real hardware; this is likely a bad dump, try a clean ROM"
    )
}

impl CartError {
    /// Human-readable description of the error.
    pub fn message(&self) -> (s: String)
        ensures
            *self == CartError::TooSmall ==> s@ == "ROM is too small to contain a cartridge header"@,
            *self matches CartError::Unsupported { code, name } ==> s@ == unsupported_message(code, name@),
            *self matches CartError::BadDump { code, size_kb } ==> s@ == bad_dump_message(code, size_kb),
    {
        match self {
            CartError::TooSmall => "ROM is too small to contain a cartridge header".to_owned(),
            CartError::Unsupported { code, name } => unsupported_text(*code, name),
            CartError::BadDump { code, size_kb } => bad_dump_text(*code, *size_kb),
        }
    }
}

pub enum MapperView {
    RomOnly(RomOnlyView),
    Mbc1(Mbc1View),
    Mbc3(Mbc3View),
    Mbc5(Mbc5View),
}

pub struct CartridgeView {
    pub mapper: MapperView,
    pub cgb: bool,
}

/// Whether reading `addr` (0x0000-0x7FFF) stays inside the ROM image.
pub open spec fn rom_read_ok(m: MapperView, addr: u16) -> bool {
    match m {
        MapperView::RomOnly(_) => true,
        MapperView::Mbc1(v) => mbc1_rom_index(v, addr) < v.rom.len(),
        MapperView::Mbc3(v) => mbc3_rom_index(v, addr) < v.rom.len(),
        MapperView::Mbc5(v) => mbc5_rom_index(v, addr) < v.rom.len(),
    }
}

pub open spec fn rom_value(m: MapperView, addr: u16) -> u8 {
    match m {
        MapperView::RomOnly(v) => if (addr as int) < v.rom.len() { v.rom[addr as int] } else { 0xFF },
        MapperView::Mbc1(v) => v.rom[mbc1_rom_index(v, addr)],
        MapperView::Mbc3(v) => v.rom[mbc3_rom_index(v, addr)],
        MapperView::Mbc5(v) => v.rom[mbc5_rom_index(v, addr)],
    }
}

pub open spec fn rom_written(m: MapperView, addr: u16, value: u8) -> MapperView {
    match m {
        MapperView::RomOnly(v) => MapperView::RomOnly(v),
        MapperView::Mbc1(v) => MapperView::Mbc1(mbc1_control(v, addr, value)),
        MapperView::Mbc3(v) => MapperView::Mbc3(mbc3_control(v, addr, value)),
        MapperView::Mbc5(v) => MapperView::Mbc5(mbc5_control(v, addr, value)),
    }
}

pub open spec fn ram_value(m: MapperView, addr: u16) -> u8 {
    match m {
        MapperView::RomOnly(v) => if v.ram.len() == 0 {
            0xFF
        } else {
            v.ram[banked_ram_offset(0, addr, v.ram.len())]
        },
        MapperView::Mbc1(v) => match mbc1_ram_index(v, addr) {
            Some(i) => v.ram[i],
            None => 0xFF,
        },
        MapperView::Mbc3(v) => match mbc3_ram_index(v, addr) {
            Some(i) => v.ram[i],
            None => if mbc3_rtc_selected(v) { v.rtc.latched[v.select - 0x08] } else { 0xFF },
        },
        MapperView::Mbc5(v) => match mbc5_ram_index(v, addr) {
            Some(i) => v.ram[i],
            None => 0xFF,
        },
    }
}

pub open spec fn ram_written(m: MapperView, addr: u16, value: u8) -> MapperView {
    match m {
        MapperView::RomOnly(v) => MapperView::RomOnly(
            RomOnlyView {
                ram: if v.ram.len() == 0 {
                    v.ram
                } else {
                    v.ram.update(banked_ram_offset(0, addr, v.ram.len()), value)
                },
                ..v
            },
        ),
        MapperView::Mbc1(v) => MapperView::Mbc1(
            Mbc1View {
                ram: match mbc1_ram_index(v, addr) {
                    Some(i) => v.ram.update(i, value),
                    None => v.ram,
                },
                ..v
            },
        ),
        MapperView::Mbc3(v) => MapperView::Mbc3(
            match mbc3_ram_index(v, addr) {
                Some(i) => Mbc3View { ram: v.ram.update(i, value), ..v },
                None => if mbc3_rtc_selected(v) {
                    Mbc3View { rtc: rtc_write(v.rtc, v.select, value), ..v }
                } else {
                    v
                },
            },
        ),
        MapperView::Mbc5(v) => MapperView::Mbc5(
            Mbc5View {
                ram: match mbc5_ram_index(v, addr) {
                    Some(i) => v.ram.update(i, value),
                    None => v.ram,
                },
                ..v
            },
        ),
    }
}

/// The battery image a save produces at wall time `now`.
pub open spec fn saved_image(m: MapperView, now: u64) -> Option<Seq<u8>> {
    match m {
        MapperView::RomOnly(v) => battery_image(v.battery, v.ram),
        MapperView::Mbc1(v) => battery_image(v.battery, v.ram),
        MapperView::Mbc3(v) => mbc3_image(v, now),
        MapperView::Mbc5(v) => battery_image(v.battery, v.ram),
    }
}

pub open spec fn load_ok(m: MapperView, data: Seq<u8>, now: u64) -> bool {
    match m {
        MapperView::Mbc3(v) => load_fits(v, data, now),
        _ => true,
    }
}

pub open spec fn image_loaded(m: MapperView, data: Seq<u8>, now: u64) -> MapperView {
    match m {
        MapperView::RomOnly(v) => MapperView::RomOnly(RomOnlyView { ram: overlay(v.ram, data), ..v }),
        MapperView::Mbc1(v) => MapperView::Mbc1(Mbc1View { ram: overlay(v.ram, data), ..v }),
        MapperView::Mbc3(v) => MapperView::Mbc3(mbc3_loaded(v, data, now)),
        MapperView::Mbc5(v) => MapperView::Mbc5(Mbc5View { ram: overlay(v.ram, data), ..v }),
    }
}

pub open spec fn tick_ok(m: MapperView, tcycles: u32) -> bool {
    match m {
        MapperView::Mbc3(v) => v.has_rtc && !v.rtc.halt ==> v.rtc.subsec + tcycles <= u32::MAX,
        _ => true,
    }
}

pub open spec fn ticked(m: MapperView, tcycles: u32) -> MapperView {
    match m {
        MapperView::Mbc3(v) => MapperView::Mbc3(mbc3_ticked(v, tcycles)),
        _ => m,
    }
}

/// The outcome of loading a ROM image, by its header.
pub open spec fn cartridge_for(rom: Seq<u8>) -> Result<CartridgeView, CartError> {
    if rom.len() < 0x150 {
        Err(CartError::TooSmall)
    } else {
        let cgb = rom[0x143] & 0x80 != 0;
        let code = rom[0x147];
        let ram = Seq::new(ram_size_spec(rom[0x149]) as nat, |_i: int| 0u8);
        if code == 0x00 || code == 0x08 || code == 0x09 {
            if rom.len() > 0x8000 {
                Err(CartError::BadDump { code, size_kb: (rom.len() / 1024) as usize })
            } else {
                Ok(CartridgeView {
                    mapper: MapperView::RomOnly(RomOnlyView { rom, ram, battery: code == 0x09 }),
                    cgb,
                })
            }
        } else if 0x01 <= code <= 0x03 {
            Ok(CartridgeView {
                mapper: MapperView::Mbc1(Mbc1View {
                    rom,
                    ram,
                    battery: code == 0x03,
                    ram_enable: false,
                    bank_lo: 1,
                    bank2: 0,
                    mode: false,
                }),
                cgb,
            })
        } else if 0x0F <= code <= 0x13 {
            Ok(CartridgeView {
                mapper: MapperView::Mbc3(Mbc3View {
                    rom,
                    ram,
                    battery: code == 0x0F || code == 0x10 || code == 0x13,
                    has_rtc: code == 0x0F || code == 0x10,
                    enable: false,
                    rom_bank: 1,
                    select: 0,
                    rtc: RtcView {
                        subsec: 0,
                        secs: 0,
                        mins: 0,
                        hours: 0,
                        days: 0,
                        halt: false,
                        carry: false,
                        latched: seq![0u8, 0u8, 0u8, 0u8, 0u8],
                    },
                    latch_pending: false,
                }),
                cgb,
            })
        } else if 0x19 <= code <= 0x1E {
            Ok(CartridgeView {
                mapper: MapperView::Mbc5(Mbc5View {
                    rom,
                    ram,
                    battery: code == 0x1B || code == 0x1E,
                    ram_enable: false,
                    rom_bank: 1,
                    ram_bank: 0,
                }),
                cgb,
            })
        } else {
            Err(CartError::Unsupported {
                code,
                name: if code == 0x05 || code == 0x06 { "MBC2" } else { "this mapper" },
            })
        }
    }
}

pub open spec fn ram_size_spec(code: u8) -> usize {
    if code == 0x01 {
        0x800
    } else if code == 0x02 {
        0x2000
    } else if code == 0x03 {
        0x8000
    } else if code == 0x04 {
        0x20000
    } else if code == 0x05 {
        0x10000
    } else {
        0
    }
}

enum Mapper {
    RomOnly(RomOnly),
    Mbc1(Mbc1),
    Mbc3(Mbc3),
    Mbc5(Mbc5),
}

pub struct Cartridge {
    mbc: Mapper,
    cgb: bool,
}

impl View for Cartridge {
    type V = CartridgeView;

    closed spec fn view(&self) -> CartridgeView {
        CartridgeView {
            mapper: match self.mbc {
                Mapper::RomOnly(m) => MapperView::RomOnly(m@),
                Mapper::Mbc1(m) => MapperView::Mbc1(m@),
                Mapper::Mbc3(m) => MapperView::Mbc3(m@),
                Mapper::Mbc5(m) => MapperView::Mbc5(m@),
            },
            cgb: self.cgb,
        }
    }
}

impl Cartridge {
    /// Loads a ROM image, picking the mapper from header byte 0x147.
    pub fn new(rom: Vec<u8>) -> (r: Result<Self, CartError>)
        ensures
            match (r, cartridge_for(rom@)) {
                (Ok(c), Ok(v)) => c@ == v,
                (Err(e), Err(f)) => e == f,
                _ => false,
            },
    {
        if rom.len() < 0x150 {
            return Err(CartError::TooSmall);
        }
        let cgb = rom[0x143] & 0x80 != 0;
        let code = rom[0x147];
        let ram = ram_size(rom[0x149]);
        let mbc = if code == 0x00 || code == 0x08 || code == 0x09 {
            if rom.len() > 0x8000 {
                return Err(CartError::BadDump { code, size_kb: rom.len() / 1024 });
            }
            Mapper::RomOnly(RomOnly::new(rom, ram, code == 0x09))
        } else if 0x01 <= code && code <= 0x03 {
            Mapper::Mbc1(Mbc1::new(rom, ram, code == 0x03))
        } else if 0x0F <= code && code <= 0x13 {
            let battery = code == 0x0F || code == 0x10 || code == 0x13;
            let has_rtc = code == 0x0F || code == 0x10;
            Mapper::Mbc3(Mbc3::new(rom, ram, battery, has_rtc))
        } else if 0x19 <= code && code <= 0x1E {
            Mapper::Mbc5(Mbc5::new(rom, ram, code == 0x1B || code == 0x1E))
        } else {
            let name = if code == 0x05 || code == 0x06 { "MBC2" } else { "this mapper" };
            return Err(CartError::Unsupported { code, name });
        };
        Ok(Cartridge { mbc, cgb })
    }

    /// Whether the cartridge has no mapper.
    pub fn is_rom_only(&self) -> (r: bool)
        ensures
            r == (self@.mapper is RomOnly),
    {
        match &self.mbc {
            Mapper::RomOnly(_) => true,
            _ => false,
        }
    }

    /// Whether the header requests Game Boy Color mode (0x143 bit 7).
    pub fn cgb(&self) -> (r: bool)
        ensures
            r == self@.cgb,
    {
        self.cgb
    }

    pub fn read_rom(&self, addr: u16) -> (r: u8)
        requires
            rom_read_ok(self@.mapper, addr),
        ensures
            r == rom_value(self@.mapper, addr),
    {
        match &self.mbc {
            Mapper::RomOnly(m) => m.read_rom(addr),
            Mapper::Mbc1(m) => m.read_rom(addr),
            Mapper::Mbc3(m) => m.read_rom(addr),
            Mapper::Mbc5(m) => m.read_rom(addr),
        }
    }

    pub fn write_rom(&mut self, addr: u16, value: u8)
        ensures
            final(self)@ == (CartridgeView {
                mapper: rom_written(old(self)@.mapper, addr, value),
                ..old(self)@
            }),
    {
        match &mut self.mbc {
            Mapper::RomOnly(m) => m.write_rom(addr, value),
            Mapper::Mbc1(m) => m.write_rom(addr, value),
            Mapper::Mbc3(m) => m.write_rom(addr, value),
            Mapper::Mbc5(m) => m.write_rom(addr, value),
        }
    }

    pub fn read_ram(&self, addr: u16) -> (r: u8)
        requires
            addr >= 0xA000,
        ensures
            r == ram_value(self@.mapper, addr),
    {
        match &self.mbc {
            Mapper::RomOnly(m) => m.read_ram(addr),
            Mapper::Mbc1(m) => m.read_ram(addr),
            Mapper::Mbc3(m) => m.read_ram(addr),
            Mapper::Mbc5(m) => m.read_ram(addr),
        }
    }

    pub fn write_ram(&mut self, addr: u16, value: u8)
        requires
            addr >= 0xA000,
        ensures
            final(self)@ == (CartridgeView {
                mapper: ram_written(old(self)@.mapper, addr, value),
                ..old(self)@
            }),
    {
        match &mut self.mbc {
            Mapper::RomOnly(m) => m.write_ram(addr, value),
            Mapper::Mbc1(m) => m.write_ram(addr, value),
            Mapper::Mbc3(m) => m.write_ram(addr, value),
            Mapper::Mbc5(m) => m.write_ram(addr, value),
        }
    }

    /// Persistable battery state (RAM, plus the clock for MBC3), stamped with
    /// wall time `now`; None without a battery.
    pub fn save(&self, now: u64) -> (r: Option<Vec<u8>>)
        ensures
            r.is_some() == saved_image(self@.mapper, now).is_some(),
            r matches Some(v) ==> Some(v@) == saved_image(self@.mapper, now),
    {
        match &self.mbc {
            Mapper::RomOnly(m) => m.save(now),
            Mapper::Mbc1(m) => m.save(now),
            Mapper::Mbc3(m) => m.save(now),
            Mapper::Mbc5(m) => m.save(now),
        }
    }

    pub fn load(&mut self, data: &[u8], now: u64)
        requires
            load_ok(old(self)@.mapper, data@, now),
        ensures
            final(self)@ == (CartridgeView {
                mapper: image_loaded(old(self)@.mapper, data@, now),
                ..old(self)@
            }),
    {
        match &mut self.mbc {
            Mapper::RomOnly(m) => m.load(data, now),
            Mapper::Mbc1(m) => m.load(data, now),
            Mapper::Mbc3(m) => m.load(data, now),
            Mapper::Mbc5(m) => m.load(data, now),
        }
    }

    /// Advances emulated time; only MBC3's clock counts T-cycles.
    pub fn tick(&mut self, tcycles: u32)
        requires
            tick_ok(old(self)@.mapper, tcycles),
        ensures
            final(self)@ == (CartridgeView {
                mapper: ticked(old(self)@.mapper, tcycles),
                ..old(self)@
            }),
    {
        match &mut self.mbc {
            Mapper::Mbc3(m) => m.tick(tcycles),
            _ => {},
        }
    }
}

/// Saving and then loading the image into a cartridge of the same kind and
/// RAM size restores the RAM exactly.
pub proof fn lemma_battery_round_trip(a: MapperView, b: MapperView, now: u64, later: u64)
    requires
        saved_image(a, now) is Some,
        match (a, b) {
            (MapperView::RomOnly(x), MapperView::RomOnly(y)) => x.ram.len() == y.ram.len(),
            (MapperView::Mbc1(x), MapperView::Mbc1(y)) => x.ram.len() == y.ram.len(),
            (MapperView::Mbc3(x), MapperView::Mbc3(y)) => x.ram.len() == y.ram.len()
                && x.has_rtc == y.has_rtc,
            (MapperView::Mbc5(x), MapperView::Mbc5(y)) => x.ram.len() == y.ram.len(),
            _ => false,
        },
    ensures
        match (a, image_loaded(b, saved_image(a, now)->Some_0, later)) {
            (MapperView::RomOnly(x), MapperView::RomOnly(y)) => y.ram == x.ram,
            (MapperView::Mbc1(x), MapperView::Mbc1(y)) => y.ram == x.ram,
            (MapperView::Mbc3(x), MapperView::Mbc3(y)) => y.ram == x.ram,
            (MapperView::Mbc5(x), MapperView::Mbc5(y)) => y.ram == x.ram,
            _ => false,
        },
{
    match (a, b) {
        (MapperView::Mbc3(x), MapperView::Mbc3(y)) => {
            let img = saved_image(a, now)->Some_0;
            assert(overlay(y.ram, img) =~= x.ram);
        },
        (MapperView::RomOnly(x), MapperView::RomOnly(y)) => {
            assert(overlay(y.ram, x.ram) =~= x.ram);
        },
        (MapperView::Mbc1(x), MapperView::Mbc1(y)) => {
            assert(overlay(y.ram, x.ram) =~= x.ram);
        },
        (MapperView::Mbc5(x), MapperView::Mbc5(y)) => {
            assert(overlay(y.ram, x.ram) =~= x.ram);
        },
        _ => {},
    }
}

/// A cartridge whose ROM has at least one full bank can be read anywhere in
/// the ROM area.
pub proof fn lemma_full_bank_rom_reads(m: MapperView, addr: u16)
    requires
        match m {
            MapperView::RomOnly(_) => true,
            MapperView::Mbc1(v) => v.rom.len() >= 0x4000,
            MapperView::Mbc3(v) => v.rom.len() >= 0x4000,
            MapperView::Mbc5(v) => v.rom.len() >= 0x4000,
        },
    ensures
        rom_read_ok(m, addr),
{
    match m {
        MapperView::Mbc1(v) => {
            let b = bank_count(v.rom.len());
            assert(mbc1_rom_bank(v, addr) < b);
            assert(mbc1_rom_bank(v, addr) * 0x4000 + 0x4000 <= b * 0x4000) by (nonlinear_arith)
                requires mbc1_rom_bank(v, addr) < b;
            assert(b * 0x4000 <= v.rom.len()) by (nonlinear_arith)
                requires b == v.rom.len() / 0x4000, v.rom.len() >= 0x4000;
            lemma_u16_bits(addr);
        },
        MapperView::Mbc3(v) => {
            let b = bank_count(v.rom.len());
            let k: nat = if addr <= 0x3FFF { 0 } else { (v.rom_bank as nat) % b };
            assert(k * 0x4000 + 0x4000 <= b * 0x4000) by (nonlinear_arith)
                requires k < b;
            assert(b * 0x4000 <= v.rom.len()) by (nonlinear_arith)
                requires b == v.rom.len() / 0x4000, v.rom.len() >= 0x4000;
            lemma_u16_bits(addr);
        },
        MapperView::Mbc5(v) => {
            let b = bank_count(v.rom.len());
            let k: nat = if addr <= 0x3FFF { 0 } else { (v.rom_bank as nat) % b };
            assert(k * 0x4000 + 0x4000 <= b * 0x4000) by (nonlinear_arith)
                requires k < b;
            assert(b * 0x4000 <= v.rom.len()) by (nonlinear_arith)
                requires b == v.rom.len() / 0x4000, v.rom.len() >= 0x4000;
            lemma_u16_bits(addr);
        },
        _ => {},
    }
}

/// Whether a banked cartridge's ROM is shorter than one 16 KiB bank (such a
/// ROM cannot be read through its mapper).
pub open spec fn rom_short_of_a_bank(c: CartridgeView) -> bool {
    match c.mapper {
        MapperView::RomOnly(_) => false,
        MapperView::Mbc1(v) => v.rom.len() < 0x4000,
        MapperView::Mbc3(v) => v.rom.len() < 0x4000,
        MapperView::Mbc5(v) => v.rom.len() < 0x4000,
    }
}

/// The invariants a loaded cartridge keeps: a banked ROM holds at least one
/// full bank, and the clock's sub-second counter stays below one second.
pub open spec fn cart_wf(c: CartridgeView) -> bool {
    match c.mapper {
        MapperView::RomOnly(_) => true,
        MapperView::Mbc1(v) => v.rom.len() >= 0x4000,
        MapperView::Mbc3(v) => v.rom.len() >= 0x4000 && v.rtc.subsec < SEC,
        MapperView::Mbc5(v) => v.rom.len() >= 0x4000,
    }
}

proof fn lemma_advance_each_subsec(v: RtcView, k: nat)
    ensures
        advance_each(v, k).subsec == v.subsec,
    decreases k,
{
    if k > 0 {
        lemma_advance_each_subsec(v, (k - 1) as nat);
    }
}

/// Writes and clock ticks keep a cartridge well formed, and a tick of up to
/// four T-cycles is always in range.
pub proof fn lemma_cart_wf_kept(c: CartridgeView, addr: u16, value: u8, t: u32)
    requires
        cart_wf(c),
    ensures
        cart_wf(CartridgeView { mapper: rom_written(c.mapper, addr, value), ..c }),
        cart_wf(CartridgeView { mapper: ram_written(c.mapper, addr, value), ..c }),
        cart_wf(CartridgeView { mapper: ticked(c.mapper, t), ..c }),
        t <= 4 ==> tick_ok(c.mapper, t),
{
    match c.mapper {
        MapperView::Mbc3(v) => {
            if v.has_rtc && !v.rtc.halt {
                let s = v.rtc.subsec + t;
                lemma_advance_each_subsec(
                    RtcView { subsec: (s % SEC as int) as u32, ..v.rtc },
                    (s / SEC as int) as nat,
                );
            }
        },
        _ => {},
    }
}


/// A mapper after the ROM-area writes `ws`, in order.
pub open spec fn rom_writes(m: MapperView, ws: Seq<(u16, u8)>) -> MapperView
    decreases ws.len(),
{
    if ws.len() == 0 {
        m
    } else {
        rom_written(rom_writes(m, ws.drop_last()), ws.last().0, ws.last().1)
    }
}

/// A cartridge without a mapper ignores every ROM-area write: after any
/// sequence of them each address still reads its ROM byte, or 0xFF past the
/// end of the ROM.
pub proof fn lemma_rom_only_ignores_writes(v: RomOnlyView, ws: Seq<(u16, u8)>, addr: u16)
    ensures
        rom_writes(MapperView::RomOnly(v), ws) == MapperView::RomOnly(v),
        rom_value(rom_writes(MapperView::RomOnly(v), ws), addr) == (if (addr as int) < v.rom.len() {
            v.rom[addr as int]
        } else {
            0xFF
        }),
    decreases ws.len(),
{
    if ws.len() > 0 {
        lemma_rom_only_ignores_writes(v, ws.drop_last(), addr);
    }
}

} // verus!
