//! The bus owns every component and the master clock. `tick()` advances one
//! M-cycle (4 T-cycles); the CPU calls it once per memory access, which keeps
//! all components in lockstep.
use vstd::prelude::*;
use crate::bytes::filled;
use crate::bits::{lemma_u8_bits, lemma_u16_bits};
use crate::gb::apu::{Apu, ApuView, apu_init, apu_wf, apu_run, apu_readable, apu_read_value, apu_written};
use crate::gb::cartridge::{
    Cartridge, CartridgeView, MapperView, cart_wf, lemma_cart_wf_kept, lemma_full_bank_rom_reads,
    rom_value, rom_written, ram_value, ram_written, ticked,
};
use crate::gb::joypad::{Joypad, p1_value};
use crate::gb::ppu::{
    Ppu, PpuView, ppu_wf, ppu_step, stat_value, lcdc_written, next_index, lemma_ly_in_range,
};
use crate::gb::serial::Serial;
use crate::gb::timer::{Timer, TimerView, tick_step, tick_irq, edge_step};
pub use crate::gb::ppu::{IF_STAT, IF_VBLANK};

verus! {

pub const IF_TIMER: u8 = 0x04;
pub const IF_SERIAL: u8 = 0x08;
pub const IF_JOYPAD: u8 = 0x10;

/// Everything the bus holds, as plain values.
pub struct BusView {
    pub cart: CartridgeView,
    pub ppu: PpuView,
    pub cgb: bool,
    pub wram: Seq<u8>,
    pub svbk: u8,
    pub vbk: u8,
    pub key1_armed: bool,
    pub double_speed: bool,
    pub hram: Seq<u8>,
    pub timer: TimerView,
    pub serial_sb: u8,
    pub serial_out: Seq<u8>,
    pub joy_select: u8,
    pub joy_buttons: u16,
    pub apu: ApuView,
    pub intf: u8,
    pub inte: u8,
    pub cycles: u64,
    pub dma_src: u16,
    pub dma_idx: u8,
    pub dma_reg: u8,
    pub hdma_src: u16,
    pub hdma_dst: u16,
    pub hdma_len: u8,
    pub hdma_active: bool,
}

/// Sizes and ranges every bus state keeps.
pub open spec fn bus_wf(b: BusView) -> bool {
    &&& b.wram.len() == 0x8000
    &&& b.hram.len() == 0x7F
    &&& ppu_wf(b.ppu)
    &&& b.ppu.ly <= 153
    &&& apu_wf(b.apu)
    &&& cart_wf(b.cart)
    &&& b.dma_idx <= 0xA0
    &&& b.dma_src <= 0xFF00
}

/// VRAM offset of `addr` (0x8000-0x9FFF) in the bank VBK selects.
pub open spec fn vram_index(vbk: u8, addr: u16) -> int {
    (vbk & 1) * 0x2000 + (addr - 0x8000)
}

/// WRAM offset of `addr` (0xC000-0xFDFF, echo included): 0xC000-0xCFFF is
/// always bank 0; 0xD000-0xDFFF is bank 1, or SVBK's bank (0 meaning 1) on CGB.
pub open spec fn wram_index(cgb: bool, svbk: u8, addr: u16) -> int {
    let off = addr & 0x1FFF;
    if off <= 0x0FFF {
        off as int
    } else {
        let bank: int = if cgb { if svbk & 7 == 0 { 1 } else { (svbk & 7) as int } } else { 1 };
        bank * 0x1000 + (off - 0x1000)
    }
}

/// What an I/O register read (0xFF00-0xFF7F) returns.
pub closed spec fn io_read_value(b: BusView, addr: u16) -> u8 {
    if addr == 0xFF00 {
        p1_value(b.joy_select, b.joy_buttons)
    } else if addr == 0xFF01 {
        b.serial_sb
    } else if addr == 0xFF02 {
        0x7E
    } else if addr == 0xFF04 {
        (b.timer.counter / 256) as u8
    } else if addr == 0xFF05 {
        b.timer.tima
    } else if addr == 0xFF06 {
        b.timer.tma
    } else if addr == 0xFF07 {
        b.timer.tac | 0xF8
    } else if addr == 0xFF0F {
        b.intf | 0xE0
    } else if 0xFF10 <= addr <= 0xFF3F {
        if apu_readable(addr) { apu_read_value(b.apu, addr) } else { 0xFF }
    } else if addr == 0xFF40 {
        b.ppu.lcdc
    } else if addr == 0xFF41 {
        stat_value(b.ppu)
    } else if addr == 0xFF42 {
        b.ppu.scy
    } else if addr == 0xFF43 {
        b.ppu.scx
    } else if addr == 0xFF44 {
        b.ppu.ly
    } else if addr == 0xFF45 {
        b.ppu.lyc
    } else if addr == 0xFF46 {
        b.dma_reg
    } else if addr == 0xFF47 {
        b.ppu.bgp
    } else if addr == 0xFF48 {
        b.ppu.obp0
    } else if addr == 0xFF49 {
        b.ppu.obp1
    } else if addr == 0xFF4A {
        b.ppu.wy
    } else if addr == 0xFF4B {
        b.ppu.wx
    } else if !b.cgb {
        0xFF
    } else if addr == 0xFF4D {
        (if b.double_speed { 0x80u8 } else { 0u8 }) | (if b.key1_armed { 1u8 } else { 0u8 }) | 0x7E
    } else if addr == 0xFF4F {
        b.vbk | 0xFE
    } else if addr == 0xFF68 {
        b.ppu.bcps | 0x40
    } else if addr == 0xFF69 {
        b.ppu.bg_pal[(b.ppu.bcps & 0x3F) as int]
    } else if addr == 0xFF6A {
        b.ppu.ocps | 0x40
    } else if addr == 0xFF6B {
        b.ppu.obj_pal[(b.ppu.ocps & 0x3F) as int]
    } else if addr == 0xFF55 {
        (if b.hdma_active { 0u8 } else { 0x80u8 }) | b.hdma_len
    } else if addr == 0xFF70 {
        b.svbk | 0xF8
    } else {
        0xFF
    }
}

/// What a CPU read of `addr` returns.
pub closed spec fn bus_read_value(b: BusView, addr: u16) -> u8 {
    if addr <= 0x7FFF {
        rom_value(b.cart.mapper, addr)
    } else if addr <= 0x9FFF {
        b.ppu.vram[vram_index(b.vbk, addr)]
    } else if addr <= 0xBFFF {
        ram_value(b.cart.mapper, addr)
    } else if addr <= 0xFDFF {
        b.wram[wram_index(b.cgb, b.svbk, addr)]
    } else if addr <= 0xFE9F {
        b.ppu.oam[addr - 0xFE00]
    } else if addr <= 0xFEFF {
        0xFF
    } else if addr <= 0xFF7F {
        io_read_value(b, addr)
    } else if addr <= 0xFFFE {
        b.hram[addr - 0xFF80]
    } else {
        b.inte
    }
}

/// One byte of an HDMA transfer: copy from the source into the current VRAM
/// bank and advance both addresses (the destination wraps within 8 KiB).
pub closed spec fn hdma_byte(b: BusView) -> BusView {
    let v = bus_read_value(b, b.hdma_src);
    let dst = (b.vbk & 1) * 0x2000 + (b.hdma_dst & 0x1FFF);
    BusView {
        ppu: PpuView { vram: b.ppu.vram.update(dst, v), ..b.ppu },
        hdma_src: (if b.hdma_src == 0xFFFF { 0 } else { b.hdma_src + 1 }) as u16,
        hdma_dst: (((if b.hdma_dst == 0xFFFF { 0 } else { b.hdma_dst + 1 }) as u16) & 0x1FFF) as u16,
        ..b
    }
}

/// `n` bytes of HDMA.
pub closed spec fn hdma_bytes(b: BusView, n: nat) -> BusView
    decreases n,
{
    if n == 0 {
        b
    } else {
        hdma_byte(hdma_bytes(b, (n - 1) as nat))
    }
}

/// One 16-byte HDMA block.
#[verifier::opaque]
pub closed spec fn hdma_block(b: BusView) -> BusView {
    hdma_bytes(b, 16)
}

/// `k` 16-byte HDMA blocks.
pub closed spec fn hdma_blocks(b: BusView, k: nat) -> BusView
    decreases k,
{
    if k == 0 {
        b
    } else {
        hdma_block(hdma_blocks(b, (k - 1) as nat))
    }
}

/// Effect of writing HDMA5 (0xFF55): bit 7 arms an HBlank transfer; a write
/// without it cancels an active one, or else copies everything at once.
pub closed spec fn hdma_started(b: BusView, v: u8) -> BusView {
    if v & 0x80 != 0 {
        BusView { hdma_len: v & 0x7F, hdma_active: true, ..b }
    } else if b.hdma_active {
        BusView { hdma_active: false, ..b }
    } else {
        let c = hdma_blocks(BusView { hdma_len: v & 0x7F, ..b }, ((v & 0x7F) + 1) as nat);
        BusView { hdma_len: 0x7F, ..c }
    }
}

/// Effect of writing a joypad, serial, timer or IF register (0xFF00-0xFF0F).
pub closed spec fn core_io_written(b: BusView, addr: u16, v: u8) -> BusView {
    if addr == 0xFF00 {
        BusView { joy_select: v & 0x30, ..b }
    } else if addr == 0xFF01 {
        BusView { serial_sb: v, ..b }
    } else if addr == 0xFF02 {
        if v & 0x80 != 0 { BusView { serial_out: b.serial_out.push(b.serial_sb), ..b } } else { b }
    } else if addr == 0xFF04 {
        BusView { timer: edge_step(TimerView { counter: 0, ..b.timer }), ..b }
    } else if addr == 0xFF05 {
        BusView { timer: TimerView { tima: v, overflow_delay: 0, ..b.timer }, ..b }
    } else if addr == 0xFF06 {
        BusView { timer: TimerView { tma: v, ..b.timer }, ..b }
    } else if addr == 0xFF07 {
        BusView { timer: edge_step(TimerView { tac: v & 0x07, ..b.timer }), ..b }
    } else if addr == 0xFF0F {
        BusView { intf: v & 0x1F, ..b }
    } else {
        b
    }
}

/// Effect of writing an LCD register or the OAM DMA register (0xFF40-0xFF4B).
pub closed spec fn lcd_io_written(b: BusView, addr: u16, v: u8) -> BusView {
    if addr == 0xFF40 {
        BusView { ppu: lcdc_written(b.ppu, v), ..b }
    } else if addr == 0xFF41 {
        BusView { ppu: PpuView { stat: v & 0x78, ..b.ppu }, ..b }
    } else if addr == 0xFF42 {
        BusView { ppu: PpuView { scy: v, ..b.ppu }, ..b }
    } else if addr == 0xFF43 {
        BusView { ppu: PpuView { scx: v, ..b.ppu }, ..b }
    } else if addr == 0xFF45 {
        BusView { ppu: PpuView { lyc: v, ..b.ppu }, ..b }
    } else if addr == 0xFF46 {
        BusView { dma_reg: v, dma_src: ((v as u16) * 256) as u16, dma_idx: 0, ..b }
    } else if addr == 0xFF47 {
        BusView { ppu: PpuView { bgp: v, ..b.ppu }, ..b }
    } else if addr == 0xFF48 {
        BusView { ppu: PpuView { obp0: v, ..b.ppu }, ..b }
    } else if addr == 0xFF49 {
        BusView { ppu: PpuView { obp1: v, ..b.ppu }, ..b }
    } else if addr == 0xFF4A {
        BusView { ppu: PpuView { wy: v, ..b.ppu }, ..b }
    } else if addr == 0xFF4B {
        BusView { ppu: PpuView { wx: v, ..b.ppu }, ..b }
    } else {
        b
    }
}

/// Effect of writing a Game Boy Color register (speed, banks, palettes, HDMA).
pub closed spec fn cgb_io_written(b: BusView, addr: u16, v: u8) -> BusView {
    if addr == 0xFF4D {
        BusView { key1_armed: v & 1 != 0, ..b }
    } else if addr == 0xFF4F {
        BusView { vbk: v & 1, ..b }
    } else if addr == 0xFF68 {
        BusView { ppu: PpuView { bcps: v & 0xBF, ..b.ppu }, ..b }
    } else if addr == 0xFF69 {
        BusView {
            ppu: PpuView {
                bg_pal: b.ppu.bg_pal.update((b.ppu.bcps & 0x3F) as int, v),
                bcps: next_index(b.ppu.bcps),
                ..b.ppu
            },
            ..b
        }
    } else if addr == 0xFF6A {
        BusView { ppu: PpuView { ocps: v & 0xBF, ..b.ppu }, ..b }
    } else if addr == 0xFF6B {
        BusView {
            ppu: PpuView {
                obj_pal: b.ppu.obj_pal.update((b.ppu.ocps & 0x3F) as int, v),
                ocps: next_index(b.ppu.ocps),
                ..b.ppu
            },
            ..b
        }
    } else if addr == 0xFF51 {
        BusView { hdma_src: (b.hdma_src & 0x00FF) | ((v as u16) << 8u16), ..b }
    } else if addr == 0xFF52 {
        BusView { hdma_src: (b.hdma_src & 0xFF00) | ((v as u16) & 0xF0), ..b }
    } else if addr == 0xFF53 {
        BusView { hdma_dst: (b.hdma_dst & 0x00FF) | (((v as u16) & 0x1F) << 8u16), ..b }
    } else if addr == 0xFF54 {
        BusView { hdma_dst: (b.hdma_dst & 0xFF00) | ((v as u16) & 0xF0), ..b }
    } else if addr == 0xFF55 {
        hdma_started(b, v)
    } else if addr == 0xFF70 {
        BusView { svbk: v & 7, ..b }
    } else {
        b
    }
}

/// Effect of writing an I/O register (0xFF00-0xFF7F); the Game Boy Color
/// registers only exist in CGB mode.
pub closed spec fn io_written(b: BusView, addr: u16, v: u8) -> BusView {
    if addr <= 0xFF0F {
        core_io_written(b, addr, v)
    } else if addr <= 0xFF3F {
        BusView { apu: apu_written(b.apu, addr, v), ..b }
    } else if addr <= 0xFF4B {
        lcd_io_written(b, addr, v)
    } else if !b.cgb {
        b
    } else {
        cgb_io_written(b, addr, v)
    }
}

/// Effect of a CPU write of `v` to `addr`.
pub closed spec fn bus_written(b: BusView, addr: u16, v: u8) -> BusView {
    if addr <= 0x7FFF {
        BusView {
            cart: CartridgeView { mapper: rom_written(b.cart.mapper, addr, v), ..b.cart },
            ..b
        }
    } else if addr <= 0x9FFF {
        BusView { ppu: PpuView { vram: b.ppu.vram.update(vram_index(b.vbk, addr), v), ..b.ppu }, ..b }
    } else if addr <= 0xBFFF {
        BusView {
            cart: CartridgeView { mapper: ram_written(b.cart.mapper, addr, v), ..b.cart },
            ..b
        }
    } else if addr <= 0xFDFF {
        BusView { wram: b.wram.update(wram_index(b.cgb, b.svbk, addr), v), ..b }
    } else if addr <= 0xFE9F {
        BusView { ppu: PpuView { oam: b.ppu.oam.update(addr - 0xFE00, v), ..b.ppu }, ..b }
    } else if addr <= 0xFEFF {
        b
    } else if addr <= 0xFF7F {
        io_written(b, addr, v)
    } else if addr <= 0xFFFE {
        BusView { hram: b.hram.update(addr - 0xFF80, v), ..b }
    } else {
        BusView { inte: v, ..b }
    }
}

/// One timer T-cycle, raising IF bit 2 when the reload completes.
pub open spec fn timer_tick_once(b: BusView) -> BusView {
    BusView {
        timer: tick_step(b.timer),
        intf: if tick_irq(b.timer) { b.intf | IF_TIMER } else { b.intf },
        ..b
    }
}

pub open spec fn timer_run(b: BusView, n: nat) -> BusView
    decreases n,
{
    if n == 0 {
        b
    } else {
        timer_tick_once(timer_run(b, (n - 1) as nat))
    }
}

/// One PPU dot, raising the IF bits it reports.
pub open spec fn ppu_tick_once(b: BusView) -> BusView {
    BusView { ppu: ppu_step(b.ppu).0, intf: b.intf | ppu_step(b.ppu).1, ..b }
}

pub open spec fn ppu_run(b: BusView, n: nat) -> BusView
    decreases n,
{
    if n == 0 {
        b
    } else {
        ppu_tick_once(ppu_run(b, (n - 1) as nat))
    }
}

/// OAM DMA: while active, one byte per M-cycle.
pub closed spec fn oam_dma_step(b: BusView) -> BusView {
    if b.dma_idx < 0xA0 {
        let v = bus_read_value(b, (b.dma_src + b.dma_idx) as u16);
        BusView {
            ppu: PpuView { oam: b.ppu.oam.update(b.dma_idx as int, v), ..b.ppu },
            dma_idx: (b.dma_idx + 1) as u8,
            ..b
        }
    } else {
        b
    }
}

/// The HBlank transfer's remaining count after a block: the last block ends
/// the transfer and leaves the length reading back as complete.
pub closed spec fn hdma_counted(d: BusView) -> BusView {
    if d.hdma_len == 0xFF {
        BusView { hdma_active: false, ..d }
    } else if d.hdma_len == 0 {
        BusView { hdma_active: false, hdma_len: 0x7F, ..d }
    } else {
        BusView { hdma_len: (d.hdma_len - 1) as u8, ..d }
    }
}

/// HBlank DMA: one 16-byte block per hblank entry while armed.
pub closed spec fn hblank_dma_step(b: BusView) -> BusView {
    if !b.ppu.hblank_pulse {
        b
    } else {
        let c = BusView { ppu: PpuView { hblank_pulse: false, ..b.ppu }, ..b };
        if !c.hdma_active {
            c
        } else {
            hdma_counted(hdma_block(c))
        }
    }
}

/// T-cycles the PPU, APU and cartridge see per M-cycle: half in double speed.
pub open spec fn real_time_cycles(b: BusView) -> nat {
    if b.double_speed { 2 } else { 4 }
}

/// One M-cycle: the clock advances four T-cycles, the timer runs on the CPU
/// clock, the PPU, APU and cartridge clock in real time, then the DMA units.
pub closed spec fn bus_ticked(b: BusView) -> BusView {
    let t = real_time_cycles(b);
    let b0 = BusView { cycles: (if b.cycles <= u64::MAX - 4 { b.cycles + 4 } else { b.cycles + 4 - 0x1_0000_0000_0000_0000 }) as u64, ..b };
    let b1 = ppu_run(timer_run(b0, 4), t);
    let b2 = BusView {
        apu: apu_run(b1.apu, t),
        cart: CartridgeView { mapper: ticked(b1.cart.mapper, t as u32), ..b1.cart },
        ..b1
    };
    hblank_dma_step(oam_dma_step(b2))
}

/// The post-boot bus around `cart`.
pub closed spec fn bus_init(cart: CartridgeView) -> BusView {
    BusView {
        cart,
        ppu: PpuView {
            vram: Seq::new(0x4000, |_i: int| 0u8),
            oam: Seq::new(0xA0, |_i: int| 0u8),
            cgb: false,
            lcdc: 0x91,
            stat: 0,
            scy: 0,
            scx: 0,
            ly: 0,
            lyc: 0,
            bgp: 0xFC,
            obp0: 0xFF,
            obp1: 0xFF,
            wy: 0,
            wx: 0,
            dot: 0,
            window_line: 0,
            wy_hit: false,
            stat_line: false,
            frame: Seq::new(23040, |_i: int| 0u8),
            frame_rgb: Seq::new(23040, |_i: int| 0u16),
            frame_ready: false,
            hblank_pulse: false,
            bg_pal: Seq::new(64, |_i: int| 0xFFu8),
            obj_pal: Seq::new(64, |_i: int| 0xFFu8),
            bcps: 0,
            ocps: 0,
        },
        cgb: false,
        wram: Seq::new(0x8000, |_i: int| 0u8),
        svbk: 0,
        vbk: 0,
        key1_armed: false,
        double_speed: false,
        hram: Seq::new(0x7F, |_i: int| 0u8),
        timer: TimerView {
            counter: 0,
            tima: 0,
            tma: 0,
            tac: 0,
            prev_bit: false,
            overflow_delay: 0,
        },
        serial_sb: 0,
        serial_out: Seq::empty(),
        joy_select: 0x30,
        joy_buttons: 0,
        apu: apu_init(),
        intf: 0,
        inte: 0,
        cycles: 0,
        dma_src: 0,
        dma_idx: 0xA0,
        dma_reg: 0xFF,
        hdma_src: 0,
        hdma_dst: 0,
        hdma_len: 0x7F,
        hdma_active: false,
    }
}

proof fn lemma_hdma_bytes_keep_cycles(b: BusView, n: nat)
    ensures
        hdma_bytes(b, n).cycles == b.cycles,
    decreases n,
{
    if n > 0 {
        lemma_hdma_bytes_keep_cycles(b, (n - 1) as nat);
    }
}

proof fn lemma_hdma_blocks_keep_cycles(b: BusView, k: nat)
    ensures
        hdma_blocks(b, k).cycles == b.cycles,
    decreases k,
{
    reveal(hdma_block);
    if k > 0 {
        lemma_hdma_blocks_keep_cycles(b, (k - 1) as nat);
        lemma_hdma_bytes_keep_cycles(hdma_blocks(b, (k - 1) as nat), 16);
    }
}

proof fn lemma_runs_keep_cycles(b: BusView, n: nat)
    ensures
        timer_run(b, n).cycles == b.cycles,
        ppu_run(b, n).cycles == b.cycles,
    decreases n,
{
    if n > 0 {
        lemma_runs_keep_cycles(b, (n - 1) as nat);
    }
}

/// Plain memory: video RAM, work RAM and its echo, OAM, high RAM and IE.
pub open spec fn is_plain_memory(addr: u16) -> bool {
    (0x8000 <= addr <= 0x9FFF) || (0xC000 <= addr <= 0xFE9F) || 0xFF80 <= addr
}

/// A read of plain memory gives back what a write to the same address
/// stored.
pub proof fn lemma_write_then_read(b: BusView, addr: u16, v: u8)
    requires
        bus_wf(b),
        is_plain_memory(addr),
    ensures
        bus_read_value(bus_written(b, addr, v), addr) == v,
{
    lemma_bits(b.vbk, addr, addr);
    lemma_u8_bits(b.svbk);
}

/// A write to plain memory leaves every other plain address reading as
/// before, unless the two are the same work-RAM byte through the echo.
pub proof fn lemma_write_keeps_other_memory(b: BusView, addr: u16, other: u16, v: u8)
    requires
        bus_wf(b),
        is_plain_memory(addr),
        is_plain_memory(other),
        addr != other,
        !(0xC000 <= addr <= 0xFDFF && 0xC000 <= other <= 0xFDFF && addr & 0x1FFF == other & 0x1FFF),
    ensures
        bus_read_value(bus_written(b, addr, v), other) == bus_read_value(b, other),
{
    lemma_bits(b.vbk, addr, other);
    lemma_u8_bits(b.svbk);
    if 0xC000 <= addr <= 0xFDFF && 0xC000 <= other <= 0xFDFF {
        assert(wram_index(b.cgb, b.svbk, addr) != wram_index(b.cgb, b.svbk, other));
    }
}

/// Echo RAM (0xE000-0xFDFF) mirrors work RAM at 0xC000-0xDDFF.
pub proof fn lemma_echo_mirrors_work_ram(b: BusView, off: u16, v: u8)
    requires
        bus_wf(b),
        off < 0x1E00,
    ensures
        bus_read_value(bus_written(b, (0xC000 + off) as u16, v), (0xE000 + off) as u16) == v,
        bus_read_value(bus_written(b, (0xE000 + off) as u16, v), (0xC000 + off) as u16) == v,
{
    assert(((0xC000 + off) as u16) & 0x1FFF == off && ((0xE000 + off) as u16) & 0x1FFF == off)
        by (bit_vector)
        requires off < 0x1E00;
    lemma_u8_bits(b.svbk);
}

/// A write never moves the clock.
pub proof fn lemma_written_keeps_cycles(b: BusView, addr: u16, v: u8)
    ensures
        bus_written(b, addr, v).cycles == b.cycles,
{
    lemma_hdma_blocks_keep_cycles(BusView { hdma_len: v & 0x7F, ..b }, ((v & 0x7F) + 1) as nat);
}

/// An M-cycle is four T-cycles on the clock.
pub proof fn lemma_ticked_cycles(b: BusView)
    requires
        b.cycles <= u64::MAX - 4,
    ensures
        bus_ticked(b).cycles == b.cycles + 4,
{
    let t = real_time_cycles(b);
    let b0 = BusView { cycles: (b.cycles + 4) as u64, ..b };
    lemma_runs_keep_cycles(b0, 4);
    lemma_runs_keep_cycles(timer_run(b0, 4), t);
    let b1 = ppu_run(timer_run(b0, 4), t);
    let b2 = BusView {
        apu: apu_run(b1.apu, t),
        cart: CartridgeView { mapper: ticked(b1.cart.mapper, t as u32), ..b1.cart },
        ..b1
    };
    let c = oam_dma_step(b2);
    lemma_hdma_bytes_keep_cycles(BusView { ppu: PpuView { hblank_pulse: false, ..c.ppu }, ..c }, 16);
    reveal(hdma_block);
}

proof fn lemma_bits(vbk: u8, dst: u16, addr: u16)
    ensures
        vbk & 1 <= 1,
        dst & 0x1FFF <= 0x1FFF,
        addr & 0x1FFF <= 0x1FFF,
        vbk & 7 <= 7,
{
    lemma_u8_bits(vbk);
    lemma_u16_bits(dst);
    lemma_u16_bits(addr);
}

pub struct Bus {
    pub cart: Cartridge,
    pub ppu: Ppu,
    pub cgb: bool,
    /// Eight 4 KiB banks; DMG uses the first two.
    pub wram: Vec<u8>,
    pub svbk: u8,
    pub vbk: u8,
    pub key1_armed: bool,
    pub double_speed: bool,
    pub hram: Vec<u8>,
    pub timer: Timer,
    pub serial: Serial,
    pub joypad: Joypad,
    pub apu: Apu,
    /// IF (0xFF0F) and IE (0xFFFF).
    pub intf: u8,
    pub inte: u8,
    /// Total elapsed T-cycles since power-on.
    pub cycles: u64,
    pub dma_src: u16,
    /// Next OAM DMA byte; 0xA0 = idle.
    pub dma_idx: u8,
    pub dma_reg: u8,
    pub hdma_src: u16,
    pub hdma_dst: u16,
    /// Remaining 16-byte blocks minus one.
    pub hdma_len: u8,
    pub hdma_active: bool,
}

impl View for Bus {
    type V = BusView;

    open spec fn view(&self) -> BusView {
        BusView {
            cart: self.cart@,
            ppu: self.ppu@,
            cgb: self.cgb,
            wram: self.wram@,
            svbk: self.svbk,
            vbk: self.vbk,
            key1_armed: self.key1_armed,
            double_speed: self.double_speed,
            hram: self.hram@,
            timer: self.timer@,
            serial_sb: self.serial.sb_value(),
            serial_out: self.serial.sent(),
            joy_select: self.joypad.select_lines(),
            joy_buttons: self.joypad.held().0,
            apu: self.apu@,
            intf: self.intf,
            inte: self.inte,
            cycles: self.cycles,
            dma_src: self.dma_src,
            dma_idx: self.dma_idx,
            dma_reg: self.dma_reg,
            hdma_src: self.hdma_src,
            hdma_dst: self.hdma_dst,
            hdma_len: self.hdma_len,
            hdma_active: self.hdma_active,
        }
    }
}

impl Bus {
    /// The post-boot bus around `cart`.
    pub fn new(cart: Cartridge) -> (b: Self)
        requires
            cart_wf(cart@),
        ensures
            bus_wf(b@),
            b@ == bus_init(cart@),
    {
        let b = Bus {
            cart,
            ppu: Ppu::new(),
            cgb: false,
            wram: filled(0x8000, 0),
            svbk: 0,
            vbk: 0,
            key1_armed: false,
            double_speed: false,
            hram: filled(0x7F, 0),
            timer: Timer::default(),
            serial: Serial::default(),
            joypad: Joypad::default(),
            apu: Apu::new(),
            intf: 0,
            inte: 0,
            cycles: 0,
            dma_src: 0,
            dma_idx: 0xA0,
            dma_reg: 0xFF,
            hdma_src: 0,
            hdma_dst: 0,
            hdma_len: 0x7F,
            hdma_active: false,
        };
        assert(b@ =~= bus_init(cart@));
        b
    }

    fn wram_index(&self, addr: u16) -> (i: usize)
        requires
            0xC000 <= addr <= 0xFDFF,
        ensures
            i == wram_index(self.cgb, self.svbk, addr),
            i < 0x8000,
    {
        proof { lemma_bits(self.svbk, 0, addr); }
        let off = addr & 0x1FFF;
        if off <= 0x0FFF {
            off as usize
        } else {
            let sel = self.svbk & 7;
            let bank: usize = if self.cgb {
                if sel == 0 { 1 } else { sel as usize }
            } else {
                1
            };
            bank * 0x1000 + (off as usize - 0x1000)
        }
    }

    /// CGB speed switch: STOP with KEY1 armed toggles double speed.
    pub fn try_speed_switch(&mut self)
        ensures
            final(self)@ == if old(self)@.cgb && old(self)@.key1_armed {
                BusView { double_speed: !old(self)@.double_speed, key1_armed: false, ..old(self)@ }
            } else {
                old(self)@
            },
    {
        if self.cgb && self.key1_armed {
            self.double_speed = !self.double_speed;
            self.key1_armed = false;
        }
    }

    pub fn read(&self, addr: u16) -> (r: u8)
        requires
            bus_wf(self@),
        ensures
            r == bus_read_value(self@, addr),
    {
        proof { lemma_bits(self.vbk, 0, addr); }
        if addr <= 0x7FFF {
            proof { lemma_full_bank_rom_reads(self@.cart.mapper, addr); }
            self.cart.read_rom(addr)
        } else if addr <= 0x9FFF {
            self.ppu.vram[(self.vbk & 1) as usize * 0x2000 + (addr - 0x8000) as usize]
        } else if addr <= 0xBFFF {
            self.cart.read_ram(addr)
        } else if addr <= 0xFDFF {
            self.wram[self.wram_index(addr)]
        } else if addr <= 0xFE9F {
            self.ppu.oam[(addr - 0xFE00) as usize]
        } else if addr <= 0xFEFF {
            0xFF
        } else if addr <= 0xFF7F {
            self.read_io(addr)
        } else if addr <= 0xFFFE {
            self.hram[(addr - 0xFF80) as usize]
        } else {
            self.inte
        }
    }

    fn read_io(&self, addr: u16) -> (r: u8)
        requires
            bus_wf(self@),
            0xFF00 <= addr <= 0xFF7F,
        ensures
            r == io_read_value(self@, addr),
    {
        if addr == 0xFF00 {
            self.joypad.read()
        } else if addr == 0xFF01 {
            self.serial.read_sb()
        } else if addr == 0xFF02 {
            self.serial.read_sc()
        } else if addr == 0xFF04 {
            self.timer.read_div()
        } else if addr == 0xFF05 {
            self.timer.read_tima()
        } else if addr == 0xFF06 {
            self.timer.read_tma()
        } else if addr == 0xFF07 {
            self.timer.read_tac()
        } else if addr == 0xFF0F {
            self.intf | 0xE0
        } else if 0xFF10 <= addr && addr <= 0xFF3F {
            if addr <= 0xFF26 || 0xFF30 <= addr {
                self.apu.read(addr)
            } else {
                0xFF  // unused sound registers read as all ones

            }
        } else if addr == 0xFF40 {
            self.ppu.lcdc
        } else if addr == 0xFF41 {
            self.ppu.read_stat()
        } else if addr == 0xFF42 {
            self.ppu.scy
        } else if addr == 0xFF43 {
            self.ppu.scx
        } else if addr == 0xFF44 {
            self.ppu.ly
        } else if addr == 0xFF45 {
            self.ppu.lyc
        } else if addr == 0xFF46 {
            self.dma_reg
        } else if addr == 0xFF47 {
            self.ppu.bgp
        } else if addr == 0xFF48 {
            self.ppu.obp0
        } else if addr == 0xFF49 {
            self.ppu.obp1
        } else if addr == 0xFF4A {
            self.ppu.wy
        } else if addr == 0xFF4B {
            self.ppu.wx
        } else if !self.cgb {
            0xFF
        } else if addr == 0xFF4D {
            (if self.double_speed { 0x80u8 } else { 0u8 }) | (if self.key1_armed { 1u8 } else { 0u8 })
                | 0x7E
        } else if addr == 0xFF4F {
            self.vbk | 0xFE
        } else if addr == 0xFF68 {
            self.ppu.read_bcps()
        } else if addr == 0xFF69 {
            self.ppu.read_bcpd()
        } else if addr == 0xFF6A {
            self.ppu.read_ocps()
        } else if addr == 0xFF6B {
            self.ppu.read_ocpd()
        } else if addr == 0xFF55 {
            (if self.hdma_active { 0u8 } else { 0x80u8 }) | self.hdma_len
        } else if addr == 0xFF70 {
            self.svbk | 0xF8
        } else {
            0xFF
        }
    }

    #[verifier::rlimit(50)]
    #[verifier::spinoff_prover]
    pub fn write(&mut self, addr: u16, value: u8)
        requires
            bus_wf(old(self)@),
        ensures
            bus_wf(final(self)@),
            final(self)@ == bus_written(old(self)@, addr, value),
    {
        proof {
            lemma_bits(self.vbk, 0, addr);
            lemma_cart_wf_kept(self@.cart, addr, value, 0);
        }
        if addr <= 0x7FFF {
            self.cart.write_rom(addr, value);
        } else if addr <= 0x9FFF {
            self.ppu.vram.set((self.vbk & 1) as usize * 0x2000 + (addr - 0x8000) as usize, value);
        } else if addr <= 0xBFFF {
            self.cart.write_ram(addr, value);
        } else if addr <= 0xFDFF {
            let i = self.wram_index(addr);
            self.wram.set(i, value);
        } else if addr <= 0xFE9F {
            self.ppu.oam.set((addr - 0xFE00) as usize, value);
        } else if addr <= 0xFEFF {
        } else if addr <= 0xFF7F {
            self.write_io(addr, value);
        } else if addr <= 0xFFFE {
            self.hram.set((addr - 0xFF80) as usize, value);
        } else {
            self.inte = value;
        }
    }

    fn write_io(&mut self, addr: u16, value: u8)
        requires
            bus_wf(old(self)@),
            0xFF00 <= addr <= 0xFF7F,
        ensures
            bus_wf(final(self)@),
            final(self)@ == io_written(old(self)@, addr, value),
    {
        if addr <= 0xFF0F {
            self.write_core_io(addr, value);
        } else if addr <= 0xFF3F {
            self.apu.write(addr, value);
        } else if addr <= 0xFF4B {
            self.write_lcd_io(addr, value);
        } else if self.cgb {
            self.write_cgb_io(addr, value);
        }
    }

    fn write_core_io(&mut self, addr: u16, value: u8)
        requires
            bus_wf(old(self)@),
        ensures
            bus_wf(final(self)@),
            final(self)@ == core_io_written(old(self)@, addr, value),
    {
        if addr == 0xFF00 {
            self.joypad.write(value);
        } else if addr == 0xFF01 {
            self.serial.write_sb(value);
        } else if addr == 0xFF02 {
            self.serial.write_sc(value);
        } else if addr == 0xFF04 {
            self.timer.write_div();
        } else if addr == 0xFF05 {
            self.timer.write_tima(value);
        } else if addr == 0xFF06 {
            self.timer.write_tma(value);
        } else if addr == 0xFF07 {
            self.timer.write_tac(value);
        } else if addr == 0xFF0F {
            self.intf = value & 0x1F;
        }
    }

    #[verifier::rlimit(40)]
    #[verifier::spinoff_prover]
    fn write_lcd_io(&mut self, addr: u16, value: u8)
        requires
            bus_wf(old(self)@),
        ensures
            bus_wf(final(self)@),
            final(self)@ == lcd_io_written(old(self)@, addr, value),
    {
        proof { lemma_ly_in_range(self@.ppu, value); }
        if addr == 0xFF40 {
            self.ppu.write_lcdc(value);
        } else if addr == 0xFF41 {
            self.ppu.write_stat(value);
        } else if addr == 0xFF42 {
            self.ppu.scy = value;
        } else if addr == 0xFF43 {
            self.ppu.scx = value;
        } else if addr == 0xFF45 {
            self.ppu.lyc = value;
        } else if addr == 0xFF46 {
            self.dma_reg = value;
            proof {
                assert((value as u16) << 8u16 == (value as u16) * 256 && (value as u16) * 256
                    <= 0xFF00) by (bit_vector);
            }
            self.dma_src = (value as u16) << 8;
            self.dma_idx = 0;
        } else if addr == 0xFF47 {
            self.ppu.bgp = value;
        } else if addr == 0xFF48 {
            self.ppu.obp0 = value;
        } else if addr == 0xFF49 {
            self.ppu.obp1 = value;
        } else if addr == 0xFF4A {
            self.ppu.wy = value;
        } else if addr == 0xFF4B {
            self.ppu.wx = value;
        }
        // LY (0xFF44) is read-only

    }

    fn write_cgb_io(&mut self, addr: u16, value: u8)
        requires
            bus_wf(old(self)@),
        ensures
            bus_wf(final(self)@),
            final(self)@ == cgb_io_written(old(self)@, addr, value),
    {
        proof { lemma_u8_bits(value); }
        if addr == 0xFF4D {
            self.key1_armed = value & 1 != 0;
        } else if addr == 0xFF4F {
            self.vbk = value & 1;
        } else if addr == 0xFF68 {
            self.ppu.write_bcps(value);
        } else if addr == 0xFF69 {
            self.ppu.write_bcpd(value);
        } else if addr == 0xFF6A {
            self.ppu.write_ocps(value);
        } else if addr == 0xFF6B {
            self.ppu.write_ocpd(value);
        } else if addr == 0xFF51 {
            self.hdma_src = (self.hdma_src & 0x00FF) | ((value as u16) << 8);
        } else if addr == 0xFF52 {
            self.hdma_src = (self.hdma_src & 0xFF00) | (value as u16 & 0xF0);
        } else if addr == 0xFF53 {
            self.hdma_dst = (self.hdma_dst & 0x00FF) | ((value as u16 & 0x1F) << 8);
        } else if addr == 0xFF54 {
            self.hdma_dst = (self.hdma_dst & 0xFF00) | (value as u16 & 0xF0);
        } else if addr == 0xFF55 {
            self.start_hdma(value);
        } else if addr == 0xFF70 {
            self.svbk = value & 7;
        }
    }

    fn start_hdma(&mut self, value: u8)
        requires
            bus_wf(old(self)@),
        ensures
            bus_wf(final(self)@),
            final(self)@ == hdma_started(old(self)@, value),
    {
        if value & 0x80 != 0 {
            // arm HBlank DMA
            self.hdma_len = value & 0x7F;
            self.hdma_active = true;
        } else if self.hdma_active {
            // cancel mid-transfer; the remaining length stays readable
            self.hdma_active = false;
        } else {
            // general-purpose DMA: copy everything now
            self.hdma_len = value & 0x7F;
            let ghost c0 = self@;
            let n = value & 0x7F;
            proof { lemma_u8_bits(value); }
            let mut i: u8 = 0;
            while i <= n
                invariant
                    i <= n + 1,
                    n <= 0x7F,
                    bus_wf(self@),
                    self@ == hdma_blocks(c0, i as nat),
                decreases n + 1 - i,
            {
                self.hdma_copy_block();
                i = i + 1;
            }
            self.hdma_len = 0x7F;  // reads back 0xFF (complete)
        }
    }

    /// Copies one 16-byte HDMA block into VRAM (current VBK bank), instantly.
    fn hdma_copy_block(&mut self)
        requires
            bus_wf(old(self)@),
        ensures
            bus_wf(final(self)@),
            final(self)@ == hdma_block(old(self)@),
    {
        proof { reveal(hdma_block); }
        let ghost b0 = self@;
        let mut i: u8 = 0;
        while i < 16
            invariant
                i <= 16,
                bus_wf(self@),
                self@ == hdma_bytes(b0, i as nat),
            decreases 16 - i,
        {
            self.hdma_copy_byte();
            i = i + 1;
        }
    }

    fn hdma_copy_byte(&mut self)
        requires
            bus_wf(old(self)@),
        ensures
            bus_wf(final(self)@),
            final(self)@ == hdma_byte(old(self)@),
    {
        proof { lemma_bits(self.vbk, self.hdma_dst, 0); }
        let v = self.read(self.hdma_src);
        let dst = (self.vbk & 1) as usize * 0x2000 + (self.hdma_dst & 0x1FFF) as usize;
        self.ppu.vram.set(dst, v);
        self.hdma_src = self.hdma_src.wrapping_add(1);
        self.hdma_dst = self.hdma_dst.wrapping_add(1) & 0x1FFF;
    }

    /// Advances one M-cycle of CPU time. The timer runs on the CPU clock; the
    /// PPU runs in real time, so it gets half the T-cycles in double speed.
    #[verifier::spinoff_prover]
    pub fn tick(&mut self)
        requires
            bus_wf(old(self)@),
        ensures
            bus_wf(final(self)@),
            final(self)@ == bus_ticked(old(self)@),
    {
        let ghost b0 = self@;
        let ppu_t: u32 = if self.double_speed { 2 } else { 4 };
        self.cycles = self.cycles.wrapping_add(4);
        let ghost b1 = self@;
        let mut i: u32 = 0;
        while i < 4
            invariant
                i <= 4,
                bus_wf(self@),
                self@ == timer_run(b1, i as nat),
            decreases 4 - i,
        {
            if self.timer.tick() {
                self.intf = self.intf | IF_TIMER;
            }
            i = i + 1;
        }
        let ghost b2 = self@;
        let mut j: u32 = 0;
        while j < ppu_t
            invariant
                j <= ppu_t,
                bus_wf(self@),
                self@ == ppu_run(b2, j as nat),
            decreases ppu_t - j,
        {
            proof { lemma_ly_in_range(self@.ppu, 0); }
            let irq = self.ppu.tick();
            self.intf = self.intf | irq;
            j = j + 1;
        }
        self.apu.tick(ppu_t);  // the APU runs in real time, like the PPU
        proof { lemma_cart_wf_kept(self@.cart, 0, 0, ppu_t); }
        self.cart.tick(ppu_t);
        self.oam_dma_step();
        self.hblank_dma_step();
    }

    /// OAM DMA: one byte per M-cycle, 160 M-cycles total.
    fn oam_dma_step(&mut self)
        requires
            bus_wf(old(self)@),
        ensures
            bus_wf(final(self)@),
            final(self)@ == oam_dma_step(old(self)@),
    {
        if self.dma_idx < 0xA0 {
            let value = self.read(self.dma_src + self.dma_idx as u16);
            self.ppu.oam.set(self.dma_idx as usize, value);
            self.dma_idx = self.dma_idx + 1;
        }
    }

    /// HBlank DMA: one 16-byte block per hblank entry.
    fn hblank_dma_step(&mut self)
        requires
            bus_wf(old(self)@),
        ensures
            bus_wf(final(self)@),
            final(self)@ == hblank_dma_step(old(self)@),
    {
        if self.ppu.hblank_pulse {
            self.ppu.hblank_pulse = false;
            if self.hdma_active {
                self.hdma_copy_block();
                self.count_hdma_block();
            }
        }
    }

    fn count_hdma_block(&mut self)
        requires
            bus_wf(old(self)@),
        ensures
            bus_wf(final(self)@),
            final(self)@ == hdma_counted(old(self)@),
    {
        if self.hdma_len == 0xFF {
            self.hdma_active = false;
        } else {
            self.hdma_len = self.hdma_len.wrapping_sub(1);
            if self.hdma_len == 0xFF {
                self.hdma_active = false;
                self.hdma_len = 0x7F;
            }
        }
    }
}

} // verus!
