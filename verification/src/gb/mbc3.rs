//! MBC3: 7-bit ROM banking, 4 RAM banks, battery, real-time clock.
use vstd::prelude::*;
use crate::bytes::{copy_of, copy_prefix, filled, overlay};
use crate::gb::mbc::{bank_count, banked_ram_offset, rom_banks};
use vstd::bytes::{spec_u64_to_le_bytes, spec_u64_from_le_bytes, u64_to_le_bytes, u64_from_le_bytes};

verus! {

/// T-cycles per emulated second.
pub const SEC: u32 = 4_194_304;

pub struct RtcView {
    pub subsec: u32,
    pub secs: u8,
    pub mins: u8,
    pub hours: u8,
    pub days: u16,
    pub halt: bool,
    pub carry: bool,
    pub latched: Seq<u8>,
}

/// The clock as a count of seconds.
pub open spec fn clock_total(v: RtcView) -> int {
    v.secs + v.mins * 60 + v.hours * 3600 + v.days * 86400
}

/// The clock `n` seconds later. Days wrap at 512; crossing the wrap sets
/// the sticky carry.
pub open spec fn advance(v: RtcView, n: nat) -> RtcView {
    if n == 0 {
        v
    } else {
        let total = clock_total(v) + n;
        RtcView {
            secs: (total % 60) as u8,
            mins: (total / 60 % 60) as u8,
            hours: (total / 3600 % 24) as u8,
            days: (total / 86400 % 512) as u16,
            carry: v.carry || total / 86400 > 0x1FF,
            ..v
        }
    }
}

/// The clock advanced one second `k` times.
pub open spec fn advance_each(v: RtcView, k: nat) -> RtcView
    decreases k,
{
    if k == 0 {
        v
    } else {
        advance(advance_each(v, (k - 1) as nat), 1)
    }
}

/// The day-high register: day bit 8, halt (bit 6), carry (bit 7).
pub open spec fn dh_of(v: RtcView) -> u8 {
    (((v.days >> 8u16) as u8) & 1) | (if v.halt { 0x40u8 } else { 0u8 }) | (if v.carry {
        0x80u8
    } else {
        0u8
    })
}

/// The clock after `tcycles` T-cycles: nothing while halted.
pub open spec fn rtc_tick(v: RtcView, tcycles: u32) -> RtcView {
    if v.halt {
        v
    } else {
        let s = v.subsec + tcycles;
        advance_each(RtcView { subsec: (s % SEC as int) as u32, ..v }, (s / SEC as int) as nat)
    }
}

/// Effect of writing RTC register `reg` (0x08..=0x0C).
pub open spec fn rtc_write(v: RtcView, reg: u8, value: u8) -> RtcView {
    if reg == 0x08 {
        RtcView { secs: value & 0x3F, subsec: 0, ..v }
    } else if reg == 0x09 {
        RtcView { mins: value & 0x3F, ..v }
    } else if reg == 0x0A {
        RtcView { hours: value & 0x1F, ..v }
    } else if reg == 0x0B {
        RtcView { days: (v.days & 0x100) | value as u16, ..v }
    } else {
        RtcView {
            days: (v.days & 0xFF) | ((value as u16 & 1) << 8u16),
            halt: value & 0x40 != 0,
            carry: value & 0x80 != 0,
            ..v
        }
    }
}

proof fn lemma_advance_keeps(v: RtcView, k: nat)
    ensures
        advance_each(v, k).subsec == v.subsec,
        advance_each(v, k).halt == v.halt,
        advance_each(v, k).latched == v.latched,
    decreases k,
{
    if k > 0 {
        lemma_advance_keeps(v, (k - 1) as nat);
    }
}

struct Rtc {
    subsec: u32,
    secs: u8,
    mins: u8,
    hours: u8,
    days: u16,
    halt: bool,
    carry: bool,
    latched: [u8; 5],
}

impl Rtc {
    spec fn view(&self) -> RtcView {
        RtcView {
            subsec: self.subsec,
            secs: self.secs,
            mins: self.mins,
            hours: self.hours,
            days: self.days,
            halt: self.halt,
            carry: self.carry,
            latched: self.latched@,
        }
    }

    fn new() -> (r: Self)
        ensures
            r.view() == (RtcView {
                subsec: 0,
                secs: 0,
                mins: 0,
                hours: 0,
                days: 0,
                halt: false,
                carry: false,
                latched: seq![0u8, 0u8, 0u8, 0u8, 0u8],
            }),
    {
        let r = Rtc {
            subsec: 0,
            secs: 0,
            mins: 0,
            hours: 0,
            days: 0,
            halt: false,
            carry: false,
            latched: [0, 0, 0, 0, 0],
        };
        assert(r.latched@ =~= seq![0u8, 0u8, 0u8, 0u8, 0u8]);
        r
    }

    fn tick(&mut self, tcycles: u32)
        requires
            !old(self).halt ==> old(self).subsec + tcycles <= u32::MAX,
        ensures
            final(self).view() == rtc_tick(old(self).view(), tcycles),
    {
        if self.halt {
            return;
        }
        let ghost v0 = self.view();
        let ghost s: int = v0.subsec + tcycles;
        self.subsec = self.subsec + tcycles;
        let ghost mut k: nat = 0;
        while self.subsec >= SEC
            invariant
                !self.halt,
                s == self.subsec + k * SEC,
                s == v0.subsec + tcycles,
                s <= u32::MAX,
                self.view() == (RtcView { subsec: self.subsec, ..advance_each(v0, k) }),
            decreases self.subsec,
        {
            self.subsec = self.subsec - SEC;
            self.advance_seconds(1);
            proof {
                k = k + 1;
            }
        }
        proof {
            lemma_advance_keeps(v0, k);
            assert(k == s / SEC as int) by (nonlinear_arith)
                requires s == self.subsec + k * SEC, 0 <= self.subsec < SEC;
            assert(self.subsec == s % SEC as int) by (nonlinear_arith)
                requires s == self.subsec + k * SEC, 0 <= self.subsec < SEC;
            lemma_advance_each_subsec(v0, k, self.subsec);
        }
    }

    fn advance_seconds(&mut self, n: u64)
        requires
            clock_total(old(self).view()) + n <= u64::MAX,
        ensures
            final(self).view() == advance(old(self).view(), n as nat),
    {
        if n == 0 {
            return;
        }
        let total: u64 = self.secs as u64 + self.mins as u64 * 60 + self.hours as u64 * 3600
            + self.days as u64 * 86_400 + n;
        self.secs = (total % 60) as u8;
        self.mins = (total / 60 % 60) as u8;
        self.hours = (total / 3600 % 24) as u8;
        let days = total / 86_400;
        if days > 0x1FF {
            self.carry = true;
        }
        assert((days & 0x1FF) == days % 512) by (bit_vector);
        self.days = (days & 0x1FF) as u16;
    }

    fn dh(&self) -> (r: u8)
        ensures
            r == dh_of(self.view()),
    {
        ((self.days >> 8) as u8 & 1) | (if self.halt { 0x40u8 } else { 0u8 }) | (if self.carry {
            0x80u8
        } else {
            0u8
        })
    }

    /// Copies the live clock into the latched registers.
    fn latch(&mut self)
        ensures
            final(self).view() == (RtcView {
                latched: seq![
                    old(self).secs,
                    old(self).mins,
                    old(self).hours,
                    old(self).days as u8,
                    dh_of(old(self).view()),
                ],
                ..old(self).view()
            }),
    {
        let dh = self.dh();
        self.latched = [self.secs, self.mins, self.hours, self.days as u8, dh];
        assert(self.latched@ =~= seq![
            old(self).secs,
            old(self).mins,
            old(self).hours,
            old(self).days as u8,
            dh,
        ]);
    }

    fn read(&self, reg: u8) -> (r: u8)
        requires
            0x08 <= reg <= 0x0C,
        ensures
            r == self.view().latched[reg - 0x08],
    {
        self.latched[(reg - 0x08) as usize]
    }

    fn write(&mut self, reg: u8, value: u8)
        ensures
            final(self).view() == rtc_write(old(self).view(), reg, value),
    {
        if reg == 0x08 {
            self.secs = value & 0x3F;
            self.subsec = 0;
        } else if reg == 0x09 {
            self.mins = value & 0x3F;
        } else if reg == 0x0A {
            self.hours = value & 0x1F;
        } else if reg == 0x0B {
            self.days = (self.days & 0x100) | value as u16;
        } else {
            self.days = (self.days & 0xFF) | ((value as u16 & 1) << 8u16);
            self.halt = value & 0x40 != 0;
            self.carry = value & 0x80 != 0;
        }
    }
}

proof fn lemma_advance_each_subsec(v: RtcView, k: nat, x: u32)
    ensures
        advance_each((RtcView { subsec: x, ..v }), k) == (RtcView { subsec: x, ..advance_each(v, k) }),
    decreases k,
{
    if k > 0 {
        lemma_advance_each_subsec(v, (k - 1) as nat, x);
    }
}

pub struct Mbc3View {
    pub rom: Seq<u8>,
    pub ram: Seq<u8>,
    pub battery: bool,
    pub has_rtc: bool,
    pub enable: bool,
    pub rom_bank: u8,
    pub select: u8,
    pub rtc: RtcView,
    pub latch_pending: bool,
}

pub open spec fn mbc3_rom_index(v: Mbc3View, addr: u16) -> int {
    let bank: nat = if addr <= 0x3FFF { 0 } else { (v.rom_bank as nat) % bank_count(v.rom.len()) };
    bank * 0x4000 + (addr & 0x3FFF)
}

pub open spec fn mbc3_ram_index(v: Mbc3View, addr: u16) -> Option<int> {
    if v.ram.len() == 0 || !v.enable || v.select > 0x03 {
        None
    } else {
        Some(banked_ram_offset(v.select as nat, addr, v.ram.len()))
    }
}

pub open spec fn mbc3_rtc_selected(v: Mbc3View) -> bool {
    v.has_rtc && v.enable && 0x08 <= v.select <= 0x0C
}

/// Effect of a write to the MBC3 control area. Writing 0x00 then 0x01 to
/// 0x6000-0x7FFF latches the clock.
pub open spec fn mbc3_control(v: Mbc3View, addr: u16, value: u8) -> Mbc3View {
    if addr <= 0x1FFF {
        Mbc3View { enable: value & 0x0F == 0x0A, ..v }
    } else if addr <= 0x3FFF {
        Mbc3View { rom_bank: if value & 0x7F == 0 { 1 } else { value & 0x7F }, ..v }
    } else if addr <= 0x5FFF {
        Mbc3View { select: value & 0x0F, ..v }
    } else if value == 0x00 {
        Mbc3View { latch_pending: true, ..v }
    } else if value == 0x01 && v.latch_pending {
        Mbc3View {
            rtc: RtcView {
                latched: seq![v.rtc.secs, v.rtc.mins, v.rtc.hours, v.rtc.days as u8, dh_of(v.rtc)],
                ..v.rtc
            },
            latch_pending: false,
            ..v
        }
    } else {
        Mbc3View { latch_pending: false, ..v }
    }
}

/// The five clock registers as stored after the RAM in a battery image.
pub open spec fn rtc_regs(r: RtcView) -> Seq<u8> {
    seq![r.secs, r.mins, r.hours, r.days as u8, dh_of(r)]
}

/// The battery image: RAM, then (with a clock) the clock registers and the
/// save time in little-endian; nothing without a battery or when empty.
pub open spec fn mbc3_image(v: Mbc3View, now: u64) -> Option<Seq<u8>> {
    if !v.battery {
        None
    } else {
        let out = if v.has_rtc { v.ram + rtc_regs(v.rtc) + spec_u64_to_le_bytes(now) } else { v.ram };
        if out.len() > 0 { Some(out) } else { None }
    }
}

/// The clock as restored from the footer `r` (at least 13 bytes) of an image.
pub open spec fn rtc_restored(c: RtcView, r: Seq<u8>) -> RtcView {
    RtcView {
        secs: r[0] & 0x3F,
        mins: r[1] & 0x3F,
        hours: r[2] & 0x1F,
        days: (r[3] as u16) | ((r[4] as u16 & 1) << 8u16),
        halt: r[4] & 0x40 != 0,
        carry: r[4] & 0x80 != 0,
        ..c
    }
}

/// Seconds elapsed from the footer's timestamp to `now` (0 if it is ahead).
pub open spec fn elapsed(r: Seq<u8>, now: u64) -> nat {
    let ts = spec_u64_from_le_bytes(r.subrange(5, 13));
    if now >= ts { (now - ts) as nat } else { 0 }
}

/// Whether a load carries a clock footer.
pub open spec fn has_footer(v: Mbc3View, data: Seq<u8>) -> bool {
    v.has_rtc && data.len() >= v.ram.len() + 13
}

/// The state after loading a battery image: RAM first; then, when a clock
/// footer is present, the clock registers, fast-forwarded by the wall time
/// since the save unless halted.
pub open spec fn mbc3_loaded(v: Mbc3View, data: Seq<u8>, now: u64) -> Mbc3View {
    let v1 = Mbc3View { ram: overlay(v.ram, data), ..v };
    if has_footer(v, data) {
        let r = data.skip(v.ram.len() as int);
        let c = rtc_restored(v.rtc, r);
        Mbc3View { rtc: if c.halt { c } else { advance(c, elapsed(r, now)) }, ..v1 }
    } else {
        v1
    }
}

/// A load cannot overflow the seconds count.
pub open spec fn load_fits(v: Mbc3View, data: Seq<u8>, now: u64) -> bool {
    has_footer(v, data) ==> {
        let r = data.skip(v.ram.len() as int);
        let c = rtc_restored(v.rtc, r);
        !c.halt ==> clock_total(c) + elapsed(r, now) <= u64::MAX
    }
}

/// The clock after `tcycles` T-cycles of a cartridge (only with a clock).
pub open spec fn mbc3_ticked(v: Mbc3View, tcycles: u32) -> Mbc3View {
    if v.has_rtc { Mbc3View { rtc: rtc_tick(v.rtc, tcycles), ..v } } else { v }
}

/// MBC3: 7-bit ROM banking, 4 RAM banks, battery, real-time clock.
pub struct Mbc3 {
    rom: Vec<u8>,
    ram: Vec<u8>,
    battery: bool,
    has_rtc: bool,
    enable: bool,
    rom_bank: u8,
    select: u8,
    rtc: Rtc,
    latch_pending: bool,
}

impl View for Mbc3 {
    type V = Mbc3View;

    closed spec fn view(&self) -> Mbc3View {
        Mbc3View {
            rom: self.rom@,
            ram: self.ram@,
            battery: self.battery,
            has_rtc: self.has_rtc,
            enable: self.enable,
            rom_bank: self.rom_bank,
            select: self.select,
            rtc: self.rtc.view(),
            latch_pending: self.latch_pending,
        }
    }
}

impl Mbc3 {
    pub fn new(rom: Vec<u8>, ram_bytes: usize, battery: bool, has_rtc: bool) -> (m: Self)
        ensures
            m@ == (Mbc3View {
                rom: rom@,
                ram: Seq::new(ram_bytes as nat, |_i: int| 0u8),
                battery,
                has_rtc,
                enable: false,
                rom_bank: 1,
                select: 0,
                rtc: RtcView {
                    subsec: 0,
                    secs: 0,
                    mins: 0,
                    hours: 0,
                    days: 0,
                    halt: false,
                    carry: false,
                    latched: seq![0u8, 0u8, 0u8, 0u8, 0u8],
                },
                latch_pending: false,
            }),
    {
        Mbc3 {
            rom,
            ram: filled(ram_bytes, 0),
            battery,
            has_rtc,
            enable: false,
            rom_bank: 1,
            select: 0,
            rtc: Rtc::new(),
            latch_pending: false,
        }
    }

    fn ram_index(&self, addr: u16) -> (r: Option<usize>)
        requires
            addr >= 0xA000,
        ensures
            r matches Some(i) ==> mbc3_ram_index(self@, addr) == Some(i as int) && i < self@.ram.len(),
            r is None ==> mbc3_ram_index(self@, addr) is None,
    {
        if self.ram.len() == 0 || !self.enable || self.select > 0x03 {
            return None;
        }
        Some((self.select as usize * 0x2000 + (addr as usize - 0xA000)) % self.ram.len())
    }

    fn rtc_selected(&self) -> (r: bool)
        ensures
            r == mbc3_rtc_selected(self@),
    {
        self.has_rtc && self.enable && 0x08 <= self.select && self.select <= 0x0C
    }

    pub fn read_rom(&self, addr: u16) -> (r: u8)
        requires
            mbc3_rom_index(self@, addr) < self@.rom.len(),
        ensures
            r == self@.rom[mbc3_rom_index(self@, addr)],
    {
        let banks = rom_banks(self.rom.len());
        let bank: usize = if addr <= 0x3FFF { 0 } else { self.rom_bank as usize % banks };
        self.rom[bank * 0x4000 + (addr as usize & 0x3FFF)]
    }

    pub fn write_rom(&mut self, addr: u16, value: u8)
        ensures
            final(self)@ == mbc3_control(old(self)@, addr, value),
    {
        if addr <= 0x1FFF {
            self.enable = value & 0x0F == 0x0A;
        } else if addr <= 0x3FFF {
            self.rom_bank = if value & 0x7F == 0 { 1 } else { value & 0x7F };
        } else if addr <= 0x5FFF {
            self.select = value & 0x0F;
        } else if value == 0x00 {
            self.latch_pending = true;
        } else {
            if value == 0x01 && self.latch_pending {
                self.rtc.latch();
            }
            self.latch_pending = false;
        }
    }

    pub fn read_ram(&self, addr: u16) -> (r: u8)
        requires
            addr >= 0xA000,
        ensures
            r == match mbc3_ram_index(self@, addr) {
                Some(i) => self@.ram[i],
                None => if mbc3_rtc_selected(self@) {
                    self@.rtc.latched[self@.select - 0x08]
                } else {
                    0xFF
                },
            },
    {
        if let Some(i) = self.ram_index(addr) {
            return self.ram[i];
        }
        if self.rtc_selected() {
            return self.rtc.read(self.select);
        }
        0xFF
    }

    pub fn write_ram(&mut self, addr: u16, value: u8)
        requires
            addr >= 0xA000,
        ensures
            final(self)@ == match mbc3_ram_index(old(self)@, addr) {
                Some(i) => Mbc3View { ram: old(self)@.ram.update(i, value), ..old(self)@ },
                None => if mbc3_rtc_selected(old(self)@) {
                    Mbc3View { rtc: rtc_write(old(self)@.rtc, old(self)@.select, value), ..old(self)@ }
                } else {
                    old(self)@
                },
            },
    {
        if let Some(i) = self.ram_index(addr) {
            self.ram.set(i, value);
        } else if self.rtc_selected() {
            let sel = self.select;
            self.rtc.write(sel, value);
        }
    }

    pub fn save(&self, now: u64) -> (r: Option<Vec<u8>>)
        ensures
            r.is_some() == mbc3_image(self@, now).is_some(),
            r matches Some(v) ==> Some(v@) == mbc3_image(self@, now),
    {
        if !self.battery {
            return None;
        }
        let mut out = copy_of(self.ram.as_slice());
        if self.has_rtc {
            let dh = self.rtc.dh();
            out.push(self.rtc.secs);
            out.push(self.rtc.mins);
            out.push(self.rtc.hours);
            out.push(self.rtc.days as u8);
            out.push(dh);
            let mut ts = u64_to_le_bytes(now);
            out.append(&mut ts);
            assert(out@ =~= self@.ram + rtc_regs(self@.rtc) + spec_u64_to_le_bytes(now));
        }
        if out.len() > 0 {
            Some(out)
        } else {
            None
        }
    }

    pub fn load(&mut self, data: &[u8], now: u64)
        requires
            load_fits(old(self)@, data@, now),
        ensures
            final(self)@ == mbc3_loaded(old(self)@, data@, now),
    {
        let ghost v0 = self@;
        copy_prefix(&mut self.ram, data);
        let n = self.ram.len();
        if self.has_rtc && data.len() >= n && data.len() - n >= 13 {
            let ghost r = data@.skip(n as int);
            self.rtc.secs = data[n] & 0x3F;
            self.rtc.mins = data[n + 1] & 0x3F;
            self.rtc.hours = data[n + 2] & 0x1F;
            self.rtc.days = data[n + 3] as u16 | ((data[n + 4] as u16 & 1) << 8u16);
            self.rtc.halt = data[n + 4] & 0x40 != 0;
            self.rtc.carry = data[n + 4] & 0x80 != 0;
            let stamp = &data[n + 5..n + 13];
            assert(stamp@ =~= r.subrange(5, 13));
            let ts = u64_from_le_bytes(stamp);
            if !self.rtc.halt {
                let gap = if now >= ts { now - ts } else { 0 };
                self.rtc.advance_seconds(gap);
            }
        }
    }

    pub fn tick(&mut self, tcycles: u32)
        requires
            old(self)@.has_rtc && !old(self)@.rtc.halt ==> old(self)@.rtc.subsec + tcycles <= u32::MAX,
        ensures
            final(self)@ == mbc3_ticked(old(self)@, tcycles),
    {
        if self.has_rtc {
            self.rtc.tick(tcycles);
        }
    }
}

} // verus!
