//! GBA memory map at coarse timing: every access costs one cycle.
//! `catch_up` walks the scanline timing events the cycle counter has passed
//! to drive rendering, interrupts, DMA triggers, the timers and sound.
use vstd::prelude::*;
use crate::bits::{lemma_join, lemma_join32, lemma_u16_bits, lemma_u32_bits};
use crate::bytes::filled;
use crate::gba::apu::{Apu, ApuView, apu_init, apu_run, apu_wf, apu_written, fifo_pushed, reg_value};
use crate::gba::keypad::{keyinput, keyinput_value};
use crate::gba::ppu::{Ppu, PpuView, gba_ppu_wf};
use crate::gba::save::{Save, SaveView, detected, save_read, save_wf, save_written};
use crate::machine::Buttons;
use crate::gba::dma::dma_triggered;
use crate::gba::render::scanline_rendered;

verus! {

pub const CYCLES_PER_LINE: u64 = 1232;
pub const LINES: u64 = 228;
pub const VBLANK_START: u64 = 160;
/// Cycle within a line at which hblank begins.
pub const HBLANK_AT: u64 = 1006;

/// A timer's live counter and the cycles accumulated toward its next tick.
#[derive(Clone, Copy, PartialEq, Eq, Debug, Structural)]
pub struct Timer {
    pub counter: u16,
    pub rem: u64,
}

/// A DMA channel's latched registers.
#[derive(Clone, Copy, PartialEq, Eq, Debug, Structural)]
pub struct Dma {
    pub src: u32,
    pub dst: u32,
    pub count: u32,
    pub pending: bool,
}

pub struct BusView {
    pub rom: Seq<u8>,
    pub ewram: Seq<u8>,
    pub iwram: Seq<u8>,
    pub io: Seq<u8>,
    pub palette: Seq<u8>,
    pub vram: Seq<u8>,
    pub oam: Seq<u8>,
    pub save: SaveView,
    pub keyinput: u16,
    pub ppu: PpuView,
    pub cycles: u64,
    pub events_done: u64,
    pub dma: Seq<Dma>,
    pub timers: Seq<Timer>,
    pub timers_synced: u64,
    pub apu: ApuView,
    pub apu_synced: u64,
    pub halted: bool,
}

/// Cycle at which timing event `k` happens: line start (even) or hblank (odd).
pub open spec fn event_at(k: int) -> int {
    (k / 2) * CYCLES_PER_LINE + (k % 2) * HBLANK_AT
}

/// Sizes and ranges every bus state keeps.
pub open spec fn bus_wf(b: BusView) -> bool {
    &&& b.ewram.len() == 0x4_0000
    &&& b.iwram.len() == 0x8000
    &&& b.io.len() == 0x400
    &&& b.palette.len() == 0x400
    &&& b.vram.len() == 0x1_8000
    &&& b.oam.len() == 0x400
    &&& save_wf(b.save)
    &&& gba_ppu_wf(b.ppu)
    &&& b.dma.len() == 4
    &&& b.timers.len() == 4
    &&& forall|t: int| 0 <= t < 4 ==> #[trigger] b.timers[t].rem < 1024
    &&& forall|ch: int| 0 <= ch < 4 ==> #[trigger] b.dma[ch].count <= 0x1_0000
    &&& apu_wf(b.apu)
    &&& b.timers_synced <= b.cycles
    &&& b.apu_synced <= b.cycles
    &&& (b.events_done == 0 || event_at(b.events_done - 1) <= b.cycles)
}

/// Cycle counts below this leave every access, and the timer arithmetic
/// behind it, clear of overflow.
pub open spec fn access_room(b: BusView) -> bool {
    b.cycles < 0x8000_0000_0000_0000
}

/// The bound that syncing the timers needs, which an access leaves behind.
pub open spec fn sync_room(b: BusView) -> bool {
    b.cycles <= 0x8000_0000_0000_0000
}

// ------------------------------------------------------------------ little-endian helpers

pub open spec fn le16(lo: u8, hi: u8) -> u16 {
    (lo + hi * 256) as u16
}

pub open spec fn le32(b0: u8, b1: u8, b2: u8, b3: u8) -> u32 {
    (b0 + b1 * 256 + b2 * 65536 + b3 * 16777216) as u32
}

pub open spec fn io16(b: BusView, reg: int) -> u16 {
    le16(b.io[reg], b.io[reg + 1])
}

pub open spec fn io32(b: BusView, reg: int) -> u32 {
    le32(b.io[reg], b.io[reg + 1], b.io[reg + 2], b.io[reg + 3])
}

/// Palette entry `index` as BGR555 (0-255 BG palette, 256-511 OBJ).
pub open spec fn palette16(b: BusView, index: int) -> u16 {
    le16(b.palette[index * 2], b.palette[index * 2 + 1])
}

/// IF with `bits` raised.
pub open spec fn irq_raised(b: BusView, bits: u16) -> BusView {
    let v = io16(b, 0x202) | bits;
    BusView { io: b.io.update(0x202, (v % 256) as u8).update(0x203, (v / 256) as u8), ..b }
}

/// VRAM is 96 KiB arranged 64K+32K; the 32K half is mirrored to fill each
/// 128 KiB window, and the window repeats through the 16 MiB page.
pub open spec fn vram_index(addr: u32) -> int {
    let i = (addr & 0x1_FFFF) as int;
    if i >= 0x1_8000 { i - 0x8000 } else { i }
}

/// The scanline the cycle counter is in.
pub open spec fn line_of(cycles: u64) -> int {
    (cycles / CYCLES_PER_LINE) as int % LINES as int
}

// ------------------------------------------------------------------ reads

/// DISPSTAT's low byte: the stored enables with the vblank, hblank and
/// VCOUNT-match flags computed from the cycle counter.
pub open spec fn dispstat_low(b: BusView) -> u8 {
    let line = line_of(b.cycles);
    let v = b.io[0x004] & 0xF8;
    let v1 = if VBLANK_START <= line < LINES - 1 { v | 1 } else { v };
    let v2 = if b.cycles % CYCLES_PER_LINE >= HBLANK_AT { v1 | 2 } else { v1 };
    if line == b.io[0x005] { v2 | 4 } else { v2 }
}

pub open spec fn is_sound_reg(reg: int) -> bool {
    (0x060 <= reg <= 0x085) || (0x090 <= reg <= 0x09F)
}

/// What a read of I/O register `reg` returns.
pub closed spec fn io_read_value(b: BusView, reg: int) -> u8 {
    if reg == 0x004 {
        dispstat_low(b)
    } else if reg == 0x006 {
        line_of(b.cycles) as u8
    } else if reg == 0x007 {
        0
    } else if reg == 0x130 {
        (b.keyinput % 256) as u8
    } else if reg == 0x131 {
        (b.keyinput / 256) as u8
    } else if reg == 0x100 || reg == 0x104 || reg == 0x108 || reg == 0x10C {
        (b.timers[(reg - 0x100) / 4].counter % 256) as u8
    } else if reg == 0x101 || reg == 0x105 || reg == 0x109 || reg == 0x10D {
        (b.timers[(reg - 0x100) / 4].counter / 256) as u8
    } else if is_sound_reg(reg) {
        reg_value(b.apu, reg)
    } else {
        b.io[reg]
    }
}

/// What a byte read of `addr` returns (no cycle cost).
pub closed spec fn read8_value(b: BusView, addr: u32) -> u8 {
    let region = addr / 0x100_0000;
    if region == 0x02 {
        b.ewram[(addr & 0x3_FFFF) as int]
    } else if region == 0x03 {
        b.iwram[(addr & 0x7FFF) as int]
    } else if region == 0x04 {
        io_read_value(b, (addr & 0x3FF) as int)
    } else if region == 0x05 {
        b.palette[(addr & 0x3FF) as int]
    } else if region == 0x06 {
        b.vram[vram_index(addr)]
    } else if region == 0x07 {
        b.oam[(addr & 0x3FF) as int]
    } else if 0x08 <= region <= 0x0D {
        let i = (addr & 0x1FF_FFFF) as int;
        // past the ROM's end the gamepak bus floats: reads return the
        // address bus, (addr / 2) as a stream of halfwords
        if i < b.rom.len() {
            b.rom[i]
        } else {
            (((addr / 2) as int) / (if addr % 2 == 1 { 256int } else { 1 }) % 256) as u8
        }
    } else if region == 0x0E || region == 0x0F {
        save_read(b.save, addr)
    } else {
        0
    }
}

pub open spec fn read16_value(b: BusView, addr: u32) -> u16 {
    let a = (addr - addr % 2) as u32;
    le16(read8_value(b, a), read8_value(b, (a + 1) as u32))
}

pub open spec fn read32_value(b: BusView, addr: u32) -> u32 {
    let a = (addr - addr % 4) as u32;
    le32(
        read8_value(b, a),
        read8_value(b, (a + 1) as u32),
        read8_value(b, (a + 2) as u32),
        read8_value(b, (a + 3) as u32),
    )
}

/// One cycle passes.
pub open spec fn clocked(b: BusView) -> BusView {
    BusView { cycles: (b.cycles + 1) as u64, ..b }
}

// ------------------------------------------------------------------ timers

/// Timer prescaler for TMxCNT bits 0-1.
pub open spec fn prescale(sel: u16) -> u64 {
    if sel == 0 {
        1
    } else if sel == 1 {
        64
    } else if sel == 2 {
        256
    } else {
        1024
    }
}

pub open spec fn with_timer(b: BusView, t: int, tm: Timer) -> BusView {
    BusView { timers: b.timers.update(t, tm), ..b }
}

/// Timer `t` advanced by `ticks`: on overflow it reloads (counting the
/// overflows past the reload) and raises its interrupt when enabled.
/// Returns the state and the number of overflows.
pub open spec fn timer_advanced(b: BusView, t: int, ticks: u64) -> (BusView, u64) {
    if ticks == 0 {
        (b, 0)
    } else {
        let total = b.timers[t].counter + ticks;
        if total < 0x1_0000 {
            (with_timer(b, t, Timer { counter: total as u16, ..b.timers[t] }), 0)
        } else {
            let reload = io16(b, 0x100 + t * 4) as int;
            let period = 0x1_0000 - reload;
            let past = total - 0x1_0000;
            let c = with_timer(b, t, Timer { counter: (reload + past % period) as u16, ..b.timers[t] });
            let c2 = if io16(b, 0x102 + t * 4) & 0x40 != 0 {
                irq_raised(c, (8u16 << (t as u16)) as u16)
            } else {
                c
            };
            (c2, (1 + past / period) as u64)
        }
    }
}

/// Timers `t..4` after `elapsed` cycles, `overflows` being the previous
/// timer's overflow count (for count-up cascading).
pub open spec fn timers_from(b: BusView, elapsed: u64, t: int, overflows: u64) -> BusView
    decreases 4 - t,
{
    if t >= 4 || t < 0 {
        b
    } else {
        let ctrl = io16(b, 0x102 + t * 4);
        if ctrl & 0x80 == 0 {
            timers_from(b, elapsed, t + 1, 0)
        } else if t > 0 && ctrl & 4 != 0 {
            let (c, n) = timer_advanced(b, t, overflows);
            timers_from(c, elapsed, t + 1, n)
        } else {
            let rem: int = b.timers[t].rem + elapsed;
            let p: int = prescale(ctrl & 3) as int;
            let c = with_timer(b, t, Timer { rem: (rem % p) as u64, ..b.timers[t] });
            let (d, n) = timer_advanced(c, t, (rem / p) as u64);
            timers_from(d, elapsed, t + 1, n)
        }
    }
}

/// The timers brought up to the cycle counter.
pub open spec fn timers_caught_up(b: BusView) -> BusView {
    let elapsed = (b.cycles - b.timers_synced) as u64;
    let c = BusView { timers_synced: b.cycles, ..b };
    if elapsed == 0 { c } else { timers_from(c, elapsed, 0, 0) }
}

/// The sound unit brought up to the cycle counter.
pub open spec fn apu_caught_up(b: BusView) -> BusView {
    let elapsed = (b.cycles - b.apu_synced) as u32;
    let c = BusView { apu_synced: b.cycles, ..b };
    if elapsed > 0 { BusView { apu: apu_run(c.apu, elapsed as nat), ..c } } else { c }
}

// ------------------------------------------------------------------ DMA

/// CNT_H of channel `ch`.
pub open spec fn cnt_h(ch: int) -> int {
    0x0BA + ch * 0xC
}

/// 14-bit count on channels 0-2, 16-bit on 3; zero means the maximum.
pub open spec fn dma_count(ch: int, raw: u16) -> u32 {
    let c = if ch == 3 { raw as int } else { (raw & 0x3FFF) as int };
    if c == 0 { if ch == 3 { 0x1_0000 } else { 0x4000 } } else { c as u32 }
}

/// A CNT_H byte store: latch on a 0-to-1 enable edge (an immediate transfer
/// becomes pending), drop pending work on disable.
pub open spec fn dma_ctrl_written(b: BusView, ch: int, was_enabled: bool) -> BusView {
    let ctrl = io16(b, cnt_h(ch));
    if ctrl & 0x8000 == 0 {
        BusView { dma: b.dma.update(ch, Dma { pending: false, ..b.dma[ch] }), ..b }
    } else if was_enabled {
        b
    } else {
        let base = 0x0B0 + ch * 0xC;
        let d = Dma {
            src: io32(b, base),
            dst: io32(b, base + 4),
            count: dma_count(ch, io16(b, base + 8)),
            pending: if (ctrl >> 12u16) & 3 == 0 { true } else { b.dma[ch].pending },
        };
        BusView { dma: b.dma.update(ch, d), ..b }
    }
}

// ------------------------------------------------------------------ writes

/// KEYCNT: raise the keypad interrupt when the selected keys are down (bit
/// 15 chooses AND over the selection rather than OR).
pub open spec fn keypad_checked(b: BusView) -> BusView {
    let keycnt = io16(b, 0x132);
    if keycnt & 0x4000 == 0 {
        b
    } else {
        let sel = keycnt & 0x3FF;
        let down = !b.keyinput & 0x3FF;
        let hit = if keycnt & 0x8000 != 0 { sel != 0 && down & sel == sel } else { down & sel != 0 };
        if hit { irq_raised(b, 0x1000) } else { b }
    }
}

pub open spec fn io_set(b: BusView, reg: int, v: u8) -> BusView {
    BusView { io: b.io.update(reg, v), ..b }
}

pub open spec fn is_timer_ctrl(reg: int) -> bool {
    reg == 0x102 || reg == 0x106 || reg == 0x10A || reg == 0x10E
}

pub open spec fn is_dma_ctrl(reg: int) -> bool {
    reg == 0x0BA || reg == 0x0BB || reg == 0x0C6 || reg == 0x0C7 || reg == 0x0D2 || reg == 0x0D3
        || reg == 0x0DE || reg == 0x0DF
}

/// Effect of a byte store to I/O register `reg`.
pub closed spec fn io_written(b: BusView, reg: int, v: u8) -> BusView {
    if reg == 0x202 || reg == 0x203 {
        // IF: write 1 to acknowledge
        io_set(b, reg, b.io[reg] & !v)
    } else if reg == 0x133 {
        keypad_checked(io_set(b, reg, v))
    } else if is_timer_ctrl(reg) {
        let t = (reg - 0x100) / 4;
        let was = b.io[reg] & 0x80 != 0;
        let c = io_set(timers_caught_up(b), reg, v);
        if !was && v & 0x80 != 0 {
            with_timer(c, t, Timer { counter: io16(c, 0x100 + t * 4), rem: 0 })
        } else {
            c
        }
    } else if is_dma_ctrl(reg) {
        let ch = (reg - 0x0B0) / 0xC;
        let was = b.io[0x0BB + ch * 0xC] & 0x80 != 0;
        dma_ctrl_written(io_set(b, reg, v), ch, was)
    } else if is_sound_reg(reg) {
        let c = apu_caught_up(b);
        BusView { apu: apu_written(c.apu, reg, v), ..c }
    } else if 0x0A0 <= reg <= 0x0A7 {
        BusView {
            apu: if reg < 0x0A4 {
                ApuView { fifo_a: fifo_pushed(b.apu.fifo_a, v), ..b.apu }
            } else {
                ApuView { fifo_b: fifo_pushed(b.apu.fifo_b, v), ..b.apu }
            },
            ..b
        }
    } else if reg == 0x301 {
        // HALTCNT: any write halts
        BusView { halted: true, ..io_set(b, reg, v) }
    } else if 0x028 <= reg <= 0x02F || 0x038 <= reg <= 0x03F {
        // BG2X/Y, BG3X/Y: writing relatches the affine reference point
        let c = io_set(b, reg, v);
        BusView {
            ppu: PpuView {
                bg_ref_dirty: c.ppu.bg_ref_dirty.update(if reg <= 0x02F { 0 } else { 1 }, true),
                ..c.ppu
            },
            ..c
        }
    } else {
        io_set(b, reg, v)
    }
}

/// Effect of a byte store to `addr` (no cycle cost, no byte-store quirks).
pub closed spec fn written8(b: BusView, addr: u32, v: u8) -> BusView {
    let region = addr / 0x100_0000;
    if region == 0x02 {
        BusView { ewram: b.ewram.update((addr & 0x3_FFFF) as int, v), ..b }
    } else if region == 0x03 {
        BusView { iwram: b.iwram.update((addr & 0x7FFF) as int, v), ..b }
    } else if region == 0x04 {
        io_written(b, (addr & 0x3FF) as int, v)
    } else if region == 0x05 {
        BusView { palette: b.palette.update((addr & 0x3FF) as int, v), ..b }
    } else if region == 0x06 {
        BusView { vram: b.vram.update(vram_index(addr), v), ..b }
    } else if region == 0x07 {
        BusView { oam: b.oam.update((addr & 0x3FF) as int, v), ..b }
    } else if region == 0x0E || region == 0x0F {
        BusView { save: save_written(b.save, addr, v), ..b }
    } else {
        b
    }
}

/// A CPU byte store: palette and VRAM take the byte in both halves of the
/// halfword, OAM ignores byte stores.
pub open spec fn stored8(b: BusView, addr: u32, v: u8) -> BusView {
    let region = addr / 0x100_0000;
    if region == 0x05 || region == 0x06 {
        let a = (addr - addr % 2) as u32;
        written8(written8(b, a, v), (a + 1) as u32, v)
    } else if region == 0x07 {
        b
    } else {
        written8(b, addr, v)
    }
}

pub open spec fn stored16(b: BusView, addr: u32, v: u16) -> BusView {
    let a = (addr - addr % 2) as u32;
    written8(written8(b, a, (v % 256) as u8), (a + 1) as u32, (v / 256) as u8)
}

pub open spec fn stored32(b: BusView, addr: u32, v: u32) -> BusView {
    let a = (addr - addr % 4) as u32;
    let b1 = written8(b, a, (v % 256) as u8);
    let b2 = written8(b1, (a + 1) as u32, ((v / 256) % 256) as u8);
    let b3 = written8(b2, (a + 2) as u32, ((v / 65536) % 256) as u8);
    written8(b3, (a + 3) as u32, (v / 16777216) as u8)
}

// ------------------------------------------------------------------ laws

/// Work RAM: EWRAM (region 0x02) and IWRAM (region 0x03).
pub open spec fn is_work_ram(addr: u32) -> bool {
    addr / 0x100_0000 == 2 || addr / 0x100_0000 == 3
}

/// A byte stored to work RAM reads back, one access later.
pub proof fn lemma_work_ram_byte_round_trip(b: BusView, addr: u32, v: u8)
    requires
        bus_wf(b),
        is_work_ram(addr),
    ensures
        read8_value(clocked(stored8(clocked(b), addr, v)), addr) == v,
{
    lemma_u32_bits(addr);
}

proof fn lemma_aligned_word(a: u32)
    requires
        a % 4 == 0,
    ensures
        ((a + 1) as u32) / 0x100_0000 == a / 0x100_0000,
        ((a + 2) as u32) / 0x100_0000 == a / 0x100_0000,
        ((a + 3) as u32) / 0x100_0000 == a / 0x100_0000,
        ((a + 1) as u32) & 0x3_FFFF == (a & 0x3_FFFF) + 1,
        ((a + 2) as u32) & 0x3_FFFF == (a & 0x3_FFFF) + 2,
        ((a + 3) as u32) & 0x3_FFFF == (a & 0x3_FFFF) + 3,
        ((a + 1) as u32) & 0x7FFF == (a & 0x7FFF) + 1,
        ((a + 2) as u32) & 0x7FFF == (a & 0x7FFF) + 2,
        ((a + 3) as u32) & 0x7FFF == (a & 0x7FFF) + 3,
        a & 0x3_FFFF < 0x3_FFFD,
        a & 0x7FFF < 0x7FFD,
{
    assert(a % 4 == 0 ==> {
        &&& ((a + 1) as u32) / 0x100_0000 == a / 0x100_0000
        &&& ((a + 2) as u32) / 0x100_0000 == a / 0x100_0000
        &&& ((a + 3) as u32) / 0x100_0000 == a / 0x100_0000
        &&& ((a + 1) as u32) & 0x3_FFFF == (a & 0x3_FFFF) + 1
        &&& ((a + 2) as u32) & 0x3_FFFF == (a & 0x3_FFFF) + 2
        &&& ((a + 3) as u32) & 0x3_FFFF == (a & 0x3_FFFF) + 3
        &&& ((a + 1) as u32) & 0x7FFF == (a & 0x7FFF) + 1
        &&& ((a + 2) as u32) & 0x7FFF == (a & 0x7FFF) + 2
        &&& ((a + 3) as u32) & 0x7FFF == (a & 0x7FFF) + 3
        &&& a & 0x3_FFFF < 0x3_FFFD
        &&& a & 0x7FFF < 0x7FFD
    }) by (bit_vector);
}

/// A word stored to work RAM reads back, one access later.
pub proof fn lemma_work_ram_word_round_trip(b: BusView, addr: u32, v: u32)
    requires
        bus_wf(b),
        is_work_ram(addr),
    ensures
        read32_value(clocked(stored32(clocked(b), addr, v)), addr) == v,
{
    lemma_u32_bits(addr);
    let a = (addr - addr % 4) as u32;
    lemma_u32_bits(a);
    lemma_aligned_word(a);
    assert(v % 256 + ((v / 256) % 256) * 256 + ((v / 65536) % 256) * 65536 + (v / 16777216) * 16777216
        == v) by (bit_vector);
}

// ------------------------------------------------------------------ timing events

/// How many timing events happen at or before cycle `c`.
pub open spec fn events_due(c: int) -> int {
    2 * (c / CYCLES_PER_LINE as int) + if c % CYCLES_PER_LINE as int >= HBLANK_AT as int { 2int } else { 1int }
}

/// Events happen in order: event `k` is due at cycle `c` exactly when `k`
/// is below the number due.
pub proof fn lemma_event_order(k: int, c: int)
    requires
        k >= 0,
        c >= 0,
    ensures
        (event_at(k) <= c) == (k < events_due(c)),
{
    let q = k / 2;
    let r = k % 2;
    let qq = c / 1232;
    let rr = c % 1232;
    assert(k == 2 * q + r && 0 <= r < 2);
    assert(c == 1232 * qq + rr && 0 <= rr < 1232);
    if q < qq {
        assert(q * 1232 + 1232 <= qq * 1232) by (nonlinear_arith)
            requires q < qq;
    } else if q > qq {
        assert(qq * 1232 + 1232 <= q * 1232) by (nonlinear_arith)
            requires q > qq;
    } else {
        assert(q * 1232 == qq * 1232);
    }
}

/// One timing event. The line-start event draws the line that just
/// completed (the frame is ready once line 159 is drawn) and raises the
/// VCOUNT-match and vblank interrupts and starts vblank DMA; the hblank
/// event raises the hblank interrupt and, on visible lines, starts hblank DMA.
pub open spec fn event_step(b: BusView) -> BusView {
    let k = b.events_done;
    let c = BusView { events_done: (k + 1) as u64, ..b };
    let line = (k / 2) % LINES;
    let dispstat = io16(c, 0x004);
    if k % 2 == 0 {
        let c0 = if 1 <= line <= VBLANK_START {
            let r = scanline_rendered(c, line - 1);
            if line == VBLANK_START {
                BusView { ppu: PpuView { frame_ready: true, ..r.ppu }, ..r }
            } else {
                r
            }
        } else {
            c
        };
        let c1 = if line == c.io[0x005] && dispstat & 0x20 != 0 { irq_raised(c0, 4) } else { c0 };
        if line == VBLANK_START {
            let c2 = if dispstat & 8 != 0 { irq_raised(c1, 1) } else { c1 };
            dma_triggered(c2, 1)
        } else {
            c1
        }
    } else {
        let c1 = if dispstat & 0x10 != 0 { irq_raised(c, 2) } else { c };
        if line < VBLANK_START {
            dma_triggered(c1, 2)
        } else {
            c1
        }
    }
}

pub open spec fn events_run(b: BusView, n: nat) -> BusView
    decreases n,
{
    if n == 0 {
        b
    } else {
        event_step(events_run(b, (n - 1) as nat))
    }
}

/// The bus brought up to its cycle counter: timers, sound, then every
/// timing event that has come due.
pub open spec fn caught_up(b: BusView) -> BusView {
    let c = apu_caught_up(timers_caught_up(b));
    events_run(c, (events_due(c.cycles as int) - c.events_done) as nat)
}

// ------------------------------------------------------------------ the bus

pub struct Bus {
    pub rom: Vec<u8>,
    pub ewram: Vec<u8>,
    pub iwram: Vec<u8>,
    pub io: Vec<u8>,
    pub palette: Vec<u8>,
    pub vram: Vec<u8>,
    pub oam: Vec<u8>,
    /// Cartridge save memory, detected from the ROM at construction.
    pub save: Save,
    /// Frontend input, pre-encoded as KEYINPUT bits (active low).
    pub keyinput: u16,
    pub ppu: Ppu,
    /// Total elapsed (coarse) cycles since power-on.
    pub cycles: u64,
    /// Number of timing events processed (2 per line: start, hblank).
    pub events_done: u64,
    pub dma: Vec<Dma>,
    pub timers: Vec<Timer>,
    /// Cycle count the timers were last advanced to.
    pub timers_synced: u64,
    pub apu: Apu,
    /// Cycle count the sound unit was last advanced to.
    pub apu_synced: u64,
    /// Set by HALTCNT; cleared when IE & IF intersect.
    pub halted: bool,
}

impl View for Bus {
    type V = BusView;

    open spec fn view(&self) -> BusView {
        BusView {
            rom: self.rom@,
            ewram: self.ewram@,
            iwram: self.iwram@,
            io: self.io@,
            palette: self.palette@,
            vram: self.vram@,
            oam: self.oam@,
            save: self.save@,
            keyinput: self.keyinput,
            ppu: self.ppu@,
            cycles: self.cycles,
            events_done: self.events_done,
            dma: self.dma@,
            timers: self.timers@,
            timers_synced: self.timers_synced,
            apu: self.apu@,
            apu_synced: self.apu_synced,
            halted: self.halted,
        }
    }
}

fn le16_of(lo: u8, hi: u8) -> (r: u16)
    ensures
        r == le16(lo, hi),
{
    proof { lemma_join(hi, lo); }
    (hi as u16) << 8 | lo as u16
}

fn align4(addr: u32) -> (a: u32)
    ensures
        a == addr - addr % 4,
{
    proof { lemma_u32_bits(addr); }
    addr & !3u32
}

/// The four bytes of a word, least significant first.
fn le_bytes32(v: u32) -> (r: (u8, u8, u8, u8))
    ensures
        r.0 == v % 256,
        r.1 == (v / 256) % 256,
        r.2 == (v / 65536) % 256,
        r.3 == v / 16777216,
{
    proof { lemma_u32_bits(v); }
    (v as u8, (v >> 8) as u8, (v >> 16) as u8, (v >> 24) as u8)
}

impl Bus {
    pub fn new(rom: Vec<u8>) -> (b: Self)
        ensures
            bus_wf(b@),
            b@.rom == rom@,
            b@.save == detected(rom@),
            b@.keyinput == 0x03FF,
            b@.cycles == 0 && b@.events_done == 0 && b@.timers_synced == 0 && b@.apu_synced == 0,
            !b@.halted,
            b@.apu == apu_init(),
            b@.io == Seq::new(0x400, |_i: int| 0u8),
            b@.ewram == Seq::new(0x4_0000, |_i: int| 0u8),
            b@.iwram == Seq::new(0x8000, |_i: int| 0u8),
            b@.palette == Seq::new(0x400, |_i: int| 0u8),
            b@.vram == Seq::new(0x1_8000, |_i: int| 0u8),
            b@.oam == Seq::new(0x400, |_i: int| 0u8),
            b@.dma == Seq::new(4, |_i: int| Dma { src: 0, dst: 0, count: 0, pending: false }),
            b@.timers == Seq::new(4, |_i: int| Timer { counter: 0, rem: 0 }),
    {
        let save = Save::detect(&rom);
        let mut dma: Vec<Dma> = Vec::new();
        let mut timers: Vec<Timer> = Vec::new();
        let mut i: usize = 0;
        while i < 4
            invariant
                i <= 4,
                dma@ == Seq::new(i as nat, |_i: int| Dma { src: 0, dst: 0, count: 0, pending: false }),
                timers@ == Seq::new(i as nat, |_i: int| Timer { counter: 0, rem: 0 }),
            decreases 4 - i,
        {
            dma.push(Dma { src: 0, dst: 0, count: 0, pending: false });
            timers.push(Timer { counter: 0, rem: 0 });
            i = i + 1;
            assert(dma@ =~= Seq::new(i as nat, |_i: int| Dma { src: 0, dst: 0, count: 0, pending: false }));
            assert(timers@ =~= Seq::new(i as nat, |_i: int| Timer { counter: 0, rem: 0 }));
        }
        Bus {
            rom,
            ewram: filled(0x4_0000, 0),
            iwram: filled(0x8000, 0),
            io: filled(0x400, 0),
            palette: filled(0x400, 0),
            vram: filled(0x1_8000, 0),
            oam: filled(0x400, 0),
            save,
            keyinput: 0x03FF,
            ppu: Ppu::new(),
            cycles: 0,
            events_done: 0,
            dma,
            timers,
            timers_synced: 0,
            apu: Apu::new(),
            apu_synced: 0,
            halted: false,
        }
    }

    pub fn io16(&self, reg: usize) -> (r: u16)
        requires
            bus_wf(self@),
            reg + 1 < 0x400,
        ensures
            r == io16(self@, reg as int),
    {
        le16_of(self.io[reg], self.io[reg + 1])
    }

    pub fn io32(&self, reg: usize) -> (r: u32)
        requires
            bus_wf(self@),
            reg + 3 < 0x400,
        ensures
            r == io32(self@, reg as int),
    {
        let lo = self.io16(reg);
        let hi = self.io16(reg + 2);
        proof { lemma_join32(hi, lo); }
        (hi as u32) << 16 | lo as u32
    }

    pub fn oam16(&self, i: usize) -> (r: u16)
        requires
            bus_wf(self@),
            i + 1 < 0x400,
        ensures
            r == le16(self@.oam[i as int], self@.oam[i + 1]),
    {
        le16_of(self.oam[i], self.oam[i + 1])
    }

    /// Palette entry as BGR555 (index 0-255 = BG palette, 256-511 = OBJ).
    pub fn palette16(&self, index: usize) -> (r: u16)
        requires
            bus_wf(self@),
            index < 512,
        ensures
            r == palette16(self@, index as int),
    {
        le16_of(self.palette[index * 2], self.palette[index * 2 + 1])
    }

    /// IE & IF intersect: the wake condition for HALT (IME is ignored).
    pub fn irq_asserted(&self) -> (r: bool)
        requires
            bus_wf(self@),
        ensures
            r == (io16(self@, 0x200) & io16(self@, 0x202) & 0x3FFF != 0),
    {
        self.io16(0x200) & self.io16(0x202) & 0x3FFF != 0
    }

    /// An interrupt should be delivered to the CPU (IME set and asserted).
    pub fn irq_pending(&self) -> (r: bool)
        requires
            bus_wf(self@),
        ensures
            r == (self@.io[0x208] & 1 != 0 && io16(self@, 0x200) & io16(self@, 0x202) & 0x3FFF != 0),
    {
        self.io[0x208] & 1 != 0 && self.irq_asserted()
    }

    /// Raises IF bits the way hardware peripherals do.
    pub fn raise_irq(&mut self, bits: u16)
        requires
            bus_wf(old(self)@),
        ensures
            bus_wf(final(self)@),
            final(self)@ == irq_raised(old(self)@, bits),
    {
        let v = self.io16(0x202) | bits;
        proof { lemma_u16_bits(v); }
        self.io.set(0x202, v as u8);
        self.io.set(0x203, (v >> 8) as u8);
    }

    /// One internal (non-memory) cycle.
    pub fn idle(&mut self)
        requires
            old(self)@.cycles < u64::MAX,
        ensures
            final(self)@ == clocked(old(self)@),
    {
        self.cycles = self.cycles + 1;
    }

    fn line(&self) -> (r: u64)
        ensures
            r == line_of(self@.cycles),
    {
        (self.cycles / CYCLES_PER_LINE) % LINES
    }

    fn vram_index(addr: u32) -> (i: usize)
        ensures
            i == vram_index(addr),
            i < 0x1_8000,
    {
        proof { lemma_u32_bits(addr); }
        let i = (addr & 0x1_FFFF) as usize;
        if i >= 0x1_8000 { i - 0x8000 } else { i }
    }

    /// Frontend input, pre-encoded as KEYINPUT bits.
    pub fn set_buttons(&mut self, buttons: Buttons)
        requires
            bus_wf(old(self)@),
        ensures
            bus_wf(final(self)@),
            final(self)@ == keypad_checked(BusView { keyinput: keyinput_value(buttons.0), ..old(self)@ }),
    {
        self.keyinput = keyinput(buttons);
        self.check_keypad_irq();
    }

    fn check_keypad_irq(&mut self)
        requires
            bus_wf(old(self)@),
        ensures
            bus_wf(final(self)@),
            final(self)@ == keypad_checked(old(self)@),
    {
        let keycnt = self.io16(0x132);
        if keycnt & 0x4000 == 0 {
            return;
        }
        let sel = keycnt & 0x3FF;
        let down = !self.keyinput & 0x3FF;
        let hit = if keycnt & 0x8000 != 0 { sel != 0 && down & sel == sel } else { down & sel != 0 };
        if hit {
            self.raise_irq(0x1000);
        }
    }

    fn read_io(&self, addr: u32) -> (r: u8)
        requires
            bus_wf(self@),
        ensures
            r == io_read_value(self@, (addr & 0x3FF) as int),
    {
        proof { lemma_u32_bits(addr); }
        let reg = (addr & 0x3FF) as usize;
        if reg == 0x004 {
            // DISPSTAT low byte: vblank/hblank/vcount-match from the cycle counter
            let line = self.line();
            let mut v = self.io[reg] & 0xF8;
            if VBLANK_START <= line && line < LINES - 1 {
                v = v | 1;
            }
            if self.cycles % CYCLES_PER_LINE >= HBLANK_AT {
                v = v | 2;
            }
            if line == self.io[0x005] as u64 {
                v = v | 4;
            }
            v
        } else if reg == 0x006 {
            self.line() as u8  // VCOUNT
        } else if reg == 0x007 {
            0
        } else if reg == 0x130 {
            (self.keyinput % 256) as u8
        } else if reg == 0x131 {
            (self.keyinput / 256) as u8
        } else if reg == 0x100 || reg == 0x104 || reg == 0x108 || reg == 0x10C {
            // timer counters read live; their io slots hold the reload value
            (self.timers[(reg - 0x100) / 4].counter % 256) as u8
        } else if reg == 0x101 || reg == 0x105 || reg == 0x109 || reg == 0x10D {
            (self.timers[(reg - 0x100) / 4].counter / 256) as u8
        } else if (0x060 <= reg && reg <= 0x085) || (0x090 <= reg && reg <= 0x09F) {
            self.apu.read(reg)
        } else {
            self.io[reg]
        }
    }

    fn read8_raw(&self, addr: u32) -> (r: u8)
        requires
            bus_wf(self@),
        ensures
            r == read8_value(self@, addr),
    {
        proof { lemma_u32_bits(addr); }
        let region = addr >> 24;
        if region == 0x02 {
            self.ewram[(addr & 0x3_FFFF) as usize]
        } else if region == 0x03 {
            self.iwram[(addr & 0x7FFF) as usize]
        } else if region == 0x04 {
            self.read_io(addr)
        } else if region == 0x05 {
            self.palette[(addr & 0x3FF) as usize]
        } else if region == 0x06 {
            self.vram[Self::vram_index(addr)]
        } else if region == 0x07 {
            self.oam[(addr & 0x3FF) as usize]
        } else if 0x08 <= region && region <= 0x0D {
            let i = (addr & 0x1FF_FFFF) as usize;
            if i < self.rom.len() {
                self.rom[i]
            } else {
                // past the ROM's end the gamepak bus floats
                let half = addr >> 1;
                proof { lemma_u32_bits(half); }
                if addr & 1 == 1 { (half >> 8) as u8 } else { half as u8 }
            }
        } else if region == 0x0E || region == 0x0F {
            self.save.read(addr)
        } else {
            // the BIOS region reads as zero: system calls are handled in software
            0
        }
    }

    pub fn read8(&mut self, addr: u32) -> (r: u8)
        requires
            bus_wf(old(self)@),
            access_room(old(self)@),
        ensures
            bus_wf(final(self)@),
            final(self)@ == clocked(old(self)@),
            r == read8_value(final(self)@, addr),
    {
        self.cycles = self.cycles + 1;
        self.read8_raw(addr)
    }

    pub fn read16(&mut self, addr: u32) -> (r: u16)
        requires
            bus_wf(old(self)@),
            access_room(old(self)@),
        ensures
            bus_wf(final(self)@),
            final(self)@ == clocked(old(self)@),
            r == read16_value(final(self)@, addr),
    {
        self.cycles = self.cycles + 1;
        proof { lemma_u32_bits(addr); }
        let a = addr & !1u32;
        le16_of(self.read8_raw(a), self.read8_raw(a + 1))
    }

    pub fn read32(&mut self, addr: u32) -> (r: u32)
        requires
            bus_wf(old(self)@),
            access_room(old(self)@),
        ensures
            bus_wf(final(self)@),
            final(self)@ == clocked(old(self)@),
            r == read32_value(final(self)@, addr),
    {
        self.cycles = self.cycles + 1;
        proof { lemma_u32_bits(addr); }
        let a = addr & !3u32;
        let lo = le16_of(self.read8_raw(a), self.read8_raw(a + 1));
        let hi = le16_of(self.read8_raw(a + 2), self.read8_raw(a + 3));
        proof { lemma_join32(hi, lo); }
        (hi as u32) << 16 | lo as u32
    }

    /// Brings the sound unit up to the cycle counter.
    pub fn apu_catch_up(&mut self)
        requires
            bus_wf(old(self)@),
        ensures
            bus_wf(final(self)@),
            final(self)@ == apu_caught_up(old(self)@),
    {
        let elapsed = (self.cycles - self.apu_synced) as u32;
        self.apu_synced = self.cycles;
        if elapsed > 0 {
            self.apu.tick(elapsed);
        }
    }

    fn write_io(&mut self, addr: u32, value: u8)
        requires
            bus_wf(old(self)@),
            sync_room(old(self)@),
        ensures
            final(self)@.cycles == old(self)@.cycles,
            bus_wf(final(self)@),
            final(self)@ == io_written(old(self)@, (addr & 0x3FF) as int, value),
    {
        proof { lemma_u32_bits(addr); }
        let reg = (addr & 0x3FF) as usize;
        if reg == 0x202 || reg == 0x203 {
            // IF: write 1 to acknowledge
            let v = self.io[reg] & !value;
            self.io.set(reg, v);
        } else if reg == 0x133 {
            // KEYCNT: a new selection can match the keys already held; only
            // the high byte (written last in a 16-bit store) triggers the check
            self.io.set(reg, value);
            self.check_keypad_irq();
        } else if reg == 0x102 || reg == 0x106 || reg == 0x10A || reg == 0x10E {
            // timer control: settle the old configuration first, then latch
            // the reload into the counter on an enable rising edge
            let t = (reg - 0x100) / 4;
            let was = self.io[reg] & 0x80 != 0;
            self.timers_catch_up();
            self.io.set(reg, value);
            if !was && value & 0x80 != 0 {
                let tm = Timer { counter: self.io16(0x100 + t * 4), rem: 0 };
                self.timers.set(t, tm);
            }
        } else if reg == 0x0BA || reg == 0x0BB || reg == 0x0C6 || reg == 0x0C7 || reg == 0x0D2
            || reg == 0x0D3 || reg == 0x0DE || reg == 0x0DF {
            // DMA control bytes: latch on the enable rising edge
            let ch = (reg - 0x0B0) / 0xC;
            let was = self.io[0x0BB + ch * 0xC] & 0x80 != 0;
            self.io.set(reg, value);
            self.dma_ctrl_write(ch, was);
        } else if (0x060 <= reg && reg <= 0x085) || (0x090 <= reg && reg <= 0x09F) {
            // sound: settle the sound unit to now, then apply the change
            self.apu_catch_up();
            self.apu.write(reg, value);
        } else if 0x0A0 <= reg && reg <= 0x0A7 {
            self.apu.fifo_push((reg - 0x0A0) / 4, value);
        } else if reg == 0x301 {
            // HALTCNT: any write halts (Stop too, at coarse timing)
            self.io.set(reg, value);
            self.halted = true;
        } else if 0x028 <= reg && reg <= 0x02F {
            // BG2X/Y: writing relatches the affine reference point
            self.io.set(reg, value);
            self.ppu.bg_ref_dirty[0] = true;
        } else if 0x038 <= reg && reg <= 0x03F {
            self.io.set(reg, value);
            self.ppu.bg_ref_dirty[1] = true;
        } else {
            self.io.set(reg, value);
        }
    }

    fn write8_raw(&mut self, addr: u32, value: u8)
        requires
            bus_wf(old(self)@),
            sync_room(old(self)@),
        ensures
            final(self)@.cycles == old(self)@.cycles,
            bus_wf(final(self)@),
            final(self)@ == written8(old(self)@, addr, value),
    {
        proof { lemma_u32_bits(addr); }
        let region = addr >> 24;
        if region == 0x02 {
            self.ewram.set((addr & 0x3_FFFF) as usize, value);
        } else if region == 0x03 {
            self.iwram.set((addr & 0x7FFF) as usize, value);
        } else if region == 0x04 {
            self.write_io(addr, value);
        } else if region == 0x05 {
            self.palette.set((addr & 0x3FF) as usize, value);
        } else if region == 0x06 {
            self.vram.set(Self::vram_index(addr), value);
        } else if region == 0x07 {
            self.oam.set((addr & 0x3FF) as usize, value);
        } else if region == 0x0E || region == 0x0F {
            self.save.write(addr, value);
        }
        // BIOS and ROM are read-only; unmapped writes vanish

    }

    pub fn write8(&mut self, addr: u32, value: u8)
        requires
            bus_wf(old(self)@),
            access_room(old(self)@),
        ensures
            bus_wf(final(self)@),
            final(self)@.cycles == old(self)@.cycles + 1,
            final(self)@ == stored8(clocked(old(self)@), addr, value),
    {
        self.cycles = self.cycles + 1;
        proof { lemma_u32_bits(addr); }
        let region = addr >> 24;
        if region == 0x05 || region == 0x06 {
            // 16-bit video memories: byte stores write both halves
            self.write8_raw(addr & !1u32, value);
            self.write8_raw(addr | 1, value);
        } else if region == 0x07 {
            // byte stores to OAM do nothing at all
        } else {
            self.write8_raw(addr, value);
        }
    }

    pub fn write16(&mut self, addr: u32, value: u16)
        requires
            bus_wf(old(self)@),
            access_room(old(self)@),
        ensures
            bus_wf(final(self)@),
            final(self)@.cycles == old(self)@.cycles + 1,
            final(self)@ == stored16(clocked(old(self)@), addr, value),
    {
        self.cycles = self.cycles + 1;
        proof { lemma_u32_bits(addr); lemma_u16_bits(value); }
        let a = addr & !1u32;
        let ghost b1 = self@;
        self.write8_raw(a, value as u8);
        let ghost b2 = self@;
        self.write8_raw(a + 1, (value >> 8) as u8);
        assert(b2 == written8(b1, a, (value % 256) as u8));
        assert(self@ == written8(b2, (a + 1) as u32, (value / 256) as u8));
    }

    #[verifier::spinoff_prover]
    #[verifier::rlimit(40)]
    pub fn write32(&mut self, addr: u32, value: u32)
        requires
            bus_wf(old(self)@),
            access_room(old(self)@),
        ensures
            bus_wf(final(self)@),
            final(self)@.cycles == old(self)@.cycles + 1,
            final(self)@ == stored32(clocked(old(self)@), addr, value),
    {
        self.cycles = self.cycles + 1;
        let a = align4(addr);
        let (x0, x1, x2, x3) = le_bytes32(value);
        let ghost b0 = self@;
        self.write8_raw(a, x0);
        let ghost b1 = self@;
        self.write8_raw(a + 1, x1);
        let ghost b2 = self@;
        self.write8_raw(a + 2, x2);
        let ghost b3 = self@;
        self.write8_raw(a + 3, x3);
        assert(b1 == written8(b0, a, x0));
        assert(b2 == written8(b1, (a + 1) as u32, x1));
        assert(b3 == written8(b2, (a + 2) as u32, x2));
    }

    /// Processes every timing event the cycle counter has passed.
    pub fn catch_up(&mut self)
        requires
            bus_wf(old(self)@),
            sync_room(old(self)@),
        ensures
            bus_wf(final(self)@),
            final(self)@ == caught_up(old(self)@),
    {
        self.timers_catch_up();
        self.apu_catch_up();
        let ghost c = self@;
        let ghost due = events_due(c.cycles as int);
        proof {
            if c.events_done > 0 {
                lemma_event_order(c.events_done - 1, c.cycles as int);
            }
        }
        loop
            invariant
                bus_wf(self@),
                self@.cycles == c.cycles,
                c.cycles <= 0x8000_0000_0000_0000,
                c.events_done <= self@.events_done <= due,
                due == events_due(c.cycles as int),
                self@ == events_run(c, (self@.events_done - c.events_done) as nat),
            ensures
                bus_wf(self@),
                self@ == events_run(c, (due - c.events_done) as nat),
            decreases due - self@.events_done,
        {
            let k = self.events_done;
            let at = (k / 2) * CYCLES_PER_LINE + (k % 2) * HBLANK_AT;
            proof { lemma_event_order(k as int, self.cycles as int); }
            if at > self.cycles {
                break;
            }
            let ghost before = self@;
            self.events_done = k + 1;
            let line = (k / 2) % LINES;
            let dispstat = self.io16(0x004);
            if k % 2 == 0 {
                // the line that just completed is drawn with the current state
                if 1 <= line && line <= VBLANK_START {
                    self.render_scanline((line - 1) as usize);
                    if line == VBLANK_START {
                        self.ppu.frame_ready = true;
                    }
                }
                if line == self.io[0x005] as u64 && dispstat & 0x20 != 0 {
                    self.raise_irq(4);  // VCOUNT match
                }
                if line == VBLANK_START {
                    if dispstat & 8 != 0 {
                        self.raise_irq(1);
                    }
                    self.dma_on_vblank();
                }
            } else {
                if dispstat & 0x10 != 0 {
                    self.raise_irq(2);  // hblank fires on every line
                }
                if line < VBLANK_START {
                    self.dma_on_hblank();  // hblank DMA pauses during vblank
                }
            }
            assert(self@ == event_step(before));
        }
    }
}

} // verus!
