//! PPU mode state machine, registers and background line renderer.
use vstd::prelude::*;
use crate::bytes::filled;
use crate::bits::lemma_u8_bits;

verus! {

/// IF bit for the vertical-blank interrupt.
pub const IF_VBLANK: u8 = 0x01;
/// IF bit for the LCD STAT interrupt.
pub const IF_STAT: u8 = 0x02;

pub const LCDC_BG_ON: u8 = 0x01;
pub const LCDC_OBJ_ON: u8 = 0x02;
pub const LCDC_OBJ_TALL: u8 = 0x04;
pub const LCDC_BG_MAP: u8 = 0x08;
pub const LCDC_TILE_DATA: u8 = 0x10;
pub const LCDC_WIN_ON: u8 = 0x20;
pub const LCDC_WIN_MAP: u8 = 0x40;
pub const LCDC_LCD_ON: u8 = 0x80;

/// Dots (T-cycles) per scanline.
pub const DOTS: u16 = 456;
/// Pixels in one frame.
pub const FRAME_PIXELS: usize = 23040;

pub struct PpuView {
    pub vram: Seq<u8>,
    pub oam: Seq<u8>,
    pub cgb: bool,
    pub lcdc: u8,
    pub stat: u8,
    pub scy: u8,
    pub scx: u8,
    pub ly: u8,
    pub lyc: u8,
    pub bgp: u8,
    pub obp0: u8,
    pub obp1: u8,
    pub wy: u8,
    pub wx: u8,
    pub dot: u16,
    pub window_line: u8,
    pub wy_hit: bool,
    pub stat_line: bool,
    pub frame: Seq<u8>,
    pub frame_rgb: Seq<u16>,
    pub frame_ready: bool,
    pub hblank_pulse: bool,
    pub bg_pal: Seq<u8>,
    pub obj_pal: Seq<u8>,
    pub bcps: u8,
    pub ocps: u8,
}

/// Sizes and ranges every PPU state keeps.
pub open spec fn ppu_wf(v: PpuView) -> bool {
    &&& v.vram.len() == 0x4000
    &&& v.oam.len() == 0xA0
    &&& v.frame.len() == FRAME_PIXELS
    &&& v.frame_rgb.len() == FRAME_PIXELS
    &&& v.bg_pal.len() == 64
    &&& v.obj_pal.len() == 64
    &&& v.dot < DOTS
    &&& v.bcps <= 0xBF
    &&& v.ocps <= 0xBF
    // only the interrupt enables (bits 3-6) are stored
    &&& v.stat % 8 == 0
    &&& v.stat < 0x80
}

/// STAT mode: 0 hblank, 1 vblank, 2 OAM scan, 3 drawing (0 with the LCD off).
pub open spec fn ppu_mode(v: PpuView) -> u8 {
    if v.lcdc & LCDC_LCD_ON == 0 {
        0
    } else if v.ly >= 144 {
        1
    } else if v.dot < 80 {
        2
    } else if v.dot < 252 {
        3
    } else {
        0
    }
}

/// The combined STAT interrupt condition.
pub open spec fn stat_condition(v: PpuView) -> bool {
    let mode = ppu_mode(v);
    (v.stat & 0x08 != 0 && mode == 0) || (v.stat & 0x10 != 0 && mode == 1) || (v.stat & 0x20 != 0
        && mode == 2) || (v.stat & 0x40 != 0 && v.ly == v.lyc)
}

/// STAT reads: bit 7 set, enables, LYC coincidence (bit 2) and mode.
pub open spec fn stat_value(v: PpuView) -> u8 {
    0x80 | v.stat | (if v.ly == v.lyc { 0x04u8 } else { 0u8 }) | ppu_mode(v)
}

/// The 2-bit colour the background shows at screen pixel (x, y).
pub open spec fn bg_color(v: PpuView, x: int, y: int) -> u8 {
    let py = ((y + v.scy) % 256) as usize;
    let px = ((x + v.scx) % 256) as usize;
    let map_base: usize = if v.lcdc & LCDC_BG_MAP != 0 { 0x1C00 } else { 0x1800 };
    let tile = v.vram[(map_base + (py / 8) * 32 + px / 8) as int];
    let tile_addr: int = if v.lcdc & LCDC_TILE_DATA != 0 {
        tile * 16
    } else {
        0x1000 + (tile as i8) * 16
    };
    let row = (py % 8) as int;
    let lo = v.vram[tile_addr + row * 2];
    let hi = v.vram[tile_addr + row * 2 + 1];
    let bit = (7 - px % 8) as u8;
    (((hi >> bit) & 1) << 1u8) | ((lo >> bit) & 1)
}

/// The shade (0..=3) the background shows at (x, y): the colour through BGP,
/// or shade 0 with the background disabled.
pub open spec fn bg_shade(v: PpuView, x: int, y: int) -> u8 {
    if v.lcdc & LCDC_BG_ON == 0 {
        0
    } else {
        (v.bgp >> (bg_color(v, x, y) * 2)) & 3
    }
}

/// The frame with row `y` rendered.
pub open spec fn frame_with_line(v: PpuView, y: int) -> Seq<u8> {
    Seq::new(
        v.frame.len(),
        |i: int| if y * 160 <= i < y * 160 + 160 { bg_shade(v, i - y * 160, y) } else { v.frame[i] },
    )
}

/// The dot/line counters after one dot, before rendering and STAT.
pub open spec fn advance_dot(v: PpuView) -> PpuView {
    let dot = (v.dot + 1) as u16;
    if dot == DOTS {
        let ly1 = (v.ly + 1) as u8;
        let v1 = if ly1 == 154 {
            PpuView { dot: 0, ly: 0, window_line: 0, wy_hit: false, ..v }
        } else {
            PpuView { dot: 0, ly: ly1, ..v }
        };
        let v2 = if v1.ly == v1.wy { PpuView { wy_hit: true, ..v1 } } else { v1 };
        if v2.ly == 144 { PpuView { frame_ready: true, ..v2 } } else { v2 }
    } else {
        PpuView { dot, ..v }
    }
}

/// One dot with the LCD on: counters, the line render at hblank entry, and
/// the STAT edge detector. Returns the new state and the IF bits raised.
pub open spec fn ppu_step(v: PpuView) -> (PpuView, u8) {
    if v.lcdc & LCDC_LCD_ON == 0 {
        (v, 0)
    } else {
        let a = advance_dot(v);
        let vblank: u8 = if (v.dot + 1) as u16 == DOTS && a.ly == 144 { IF_VBLANK } else { 0 };
        let b = if a.dot == 252 && a.ly < 144 {
            PpuView { frame: frame_with_line(a, a.ly as int), hblank_pulse: true, ..a }
        } else {
            a
        };
        let line = stat_condition(b);
        let stat_irq: u8 = if line && !b.stat_line { IF_STAT } else { 0 };
        (PpuView { stat_line: line, ..b }, vblank | stat_irq)
    }
}

/// Effect of an LCDC write: turning the LCD off resets the frame state.
pub open spec fn lcdc_written(v: PpuView, value: u8) -> PpuView {
    if v.lcdc & LCDC_LCD_ON != 0 && value & LCDC_LCD_ON == 0 {
        PpuView { lcdc: value, ly: 0, dot: 0, window_line: 0, wy_hit: false, ..v }
    } else {
        PpuView { lcdc: value, ..v }
    }
}

/// The palette index after a data write with auto-increment in bit 7.
pub open spec fn next_index(ps: u8) -> u8 {
    if ps & 0x80 != 0 { 0x80 | ((ps + 1) as u8 & 0x3F) } else { ps }
}

proof fn lemma_index_bits(x: u8)
    ensures
        (x & 0x3F) < 64,
        (0x80u8 | (x & 0x3F)) <= 0xBF,
{
    lemma_u8_bits(x);
}

pub struct Ppu {
    /// Two 8 KiB banks; bank 1 holds CGB attributes.
    pub vram: Vec<u8>,
    pub oam: Vec<u8>,
    pub cgb: bool,
    pub lcdc: u8,
    pub stat: u8,
    pub scy: u8,
    pub scx: u8,
    pub ly: u8,
    pub lyc: u8,
    pub bgp: u8,
    pub obp0: u8,
    pub obp1: u8,
    pub wy: u8,
    pub wx: u8,
    pub dot: u16,
    pub window_line: u8,
    pub wy_hit: bool,
    pub stat_line: bool,
    /// 160x144 shade indices (0..=3), row-major.
    pub frame: Vec<u8>,
    /// 160x144 RGB555 pixels (CGB mode).
    pub frame_rgb: Vec<u16>,
    pub frame_ready: bool,
    /// Set on hblank entry; consumed by the bus for HBlank DMA.
    pub hblank_pulse: bool,
    pub bg_pal: Vec<u8>,
    pub obj_pal: Vec<u8>,
    pub bcps: u8,
    pub ocps: u8,
}

impl View for Ppu {
    type V = PpuView;

    open spec fn view(&self) -> PpuView {
        PpuView {
            vram: self.vram@,
            oam: self.oam@,
            cgb: self.cgb,
            lcdc: self.lcdc,
            stat: self.stat,
            scy: self.scy,
            scx: self.scx,
            ly: self.ly,
            lyc: self.lyc,
            bgp: self.bgp,
            obp0: self.obp0,
            obp1: self.obp1,
            wy: self.wy,
            wx: self.wx,
            dot: self.dot,
            window_line: self.window_line,
            wy_hit: self.wy_hit,
            stat_line: self.stat_line,
            frame: self.frame@,
            frame_rgb: self.frame_rgb@,
            frame_ready: self.frame_ready,
            hblank_pulse: self.hblank_pulse,
            bg_pal: self.bg_pal@,
            obj_pal: self.obj_pal@,
            bcps: self.bcps,
            ocps: self.ocps,
        }
    }
}

fn zero_words(n: usize) -> (r: Vec<u16>)
    ensures
        r@ == Seq::new(n as nat, |_i: int| 0u16),
{
    let mut r: Vec<u16> = Vec::new();
    let mut i: usize = 0;
    while i < n
        invariant
            i <= n,
            r@ == Seq::new(i as nat, |_i: int| 0u16),
        decreases n - i,
    {
        r.push(0);
        i = i + 1;
        assert(r@ =~= Seq::new(i as nat, |_i: int| 0u16));
    }
    r
}

impl Ppu {
    /// Post-boot DMG register state.
    pub fn new() -> (p: Self)
        ensures
            ppu_wf(p@),
            p@.lcdc == 0x91 && p@.stat == 0 && p@.scy == 0 && p@.scx == 0,
            p@.ly == 0 && p@.lyc == 0 && p@.bgp == 0xFC && p@.obp0 == 0xFF && p@.obp1 == 0xFF,
            p@.wy == 0 && p@.wx == 0 && p@.dot == 0 && p@.window_line == 0,
            !p@.wy_hit && !p@.stat_line && !p@.frame_ready && !p@.hblank_pulse && !p@.cgb,
            p@.bcps == 0 && p@.ocps == 0,
            p@.vram == Seq::new(0x4000, |_i: int| 0u8),
            p@.oam == Seq::new(0xA0, |_i: int| 0u8),
            p@.frame == Seq::new(FRAME_PIXELS as nat, |_i: int| 0u8),
            p@.frame_rgb == Seq::new(FRAME_PIXELS as nat, |_i: int| 0u16),
            p@.bg_pal == Seq::new(64, |_i: int| 0xFFu8),
            p@.obj_pal == Seq::new(64, |_i: int| 0xFFu8),
    {
        Ppu {
            vram: filled(0x4000, 0),
            oam: filled(0xA0, 0),
            cgb: false,
            lcdc: 0x91,
            stat: 0,
            scy: 0,
            scx: 0,
            ly: 0,
            lyc: 0,
            bgp: 0xFC,
            obp0: 0xFF,
            obp1: 0xFF,
            wy: 0,
            wx: 0,
            dot: 0,
            window_line: 0,
            wy_hit: false,
            stat_line: false,
            frame: filled(FRAME_PIXELS, 0),
            frame_rgb: zero_words(FRAME_PIXELS),
            frame_ready: false,
            hblank_pulse: false,
            bg_pal: filled(64, 0xFF),
            obj_pal: filled(64, 0xFF),
            bcps: 0,
            ocps: 0,
        }
    }

    /// Advances one T-cycle. Returns the IF bits to raise.
    pub fn tick(&mut self) -> (irq: u8)
        requires
            ppu_wf(old(self)@),
            old(self)@.lcdc & LCDC_LCD_ON != 0 && old(self)@.dot == DOTS - 1 ==> old(self)@.ly < 255,
        ensures
            ppu_wf(final(self)@),
            (final(self)@, irq) == ppu_step(old(self)@),
    {
        if self.lcdc & LCDC_LCD_ON == 0 {
            return 0;
        }
        let ghost v0 = self@;
        let mut irq: u8 = 0;
        self.dot = self.dot + 1;
        if self.dot == 456 {
            self.dot = 0;
            self.ly = self.ly + 1;
            if self.ly == 154 {
                self.ly = 0;
                self.window_line = 0;
                self.wy_hit = false;
            }
            if self.ly == self.wy {
                self.wy_hit = true;
            }
            if self.ly == 144 {
                irq = IF_VBLANK;
                self.frame_ready = true;
            }
        }
        assert(self@ == advance_dot(v0));
        assert(irq == if (v0.dot + 1) as u16 == DOTS && self@.ly == 144 { IF_VBLANK } else { 0 });
        if self.dot == 252 && self.ly < 144 {
            self.render_line();
            self.hblank_pulse = true;
        }
        let s = self.update_stat();
        assert(s == 0 || s == IF_STAT);
        assert(irq == 0 || irq == IF_VBLANK);
        assert((0u8 | 0u8) == 0u8 && (0u8 | 2u8) == 2u8 && (1u8 | 0u8) == 1u8 && (1u8 | 2u8) == 3u8) by (bit_vector);
        irq | s
    }

    fn mode(&self) -> (m: u8)
        ensures
            m == ppu_mode(self@),
    {
        if self.lcdc & LCDC_LCD_ON == 0 {
            0
        } else if self.ly >= 144 {
            1
        } else if self.dot < 80 {
            2
        } else if self.dot < 252 {
            3
        } else {
            0
        }
    }

    /// The STAT interrupt fires on the rising edge of the combined condition.
    fn update_stat(&mut self) -> (irq: u8)
        ensures
            final(self)@ == (PpuView { stat_line: stat_condition(old(self)@), ..old(self)@ }),
            irq == if stat_condition(old(self)@) && !old(self)@.stat_line { IF_STAT } else { 0 },
    {
        let mode = self.mode();
        let line = (self.stat & 0x08 != 0 && mode == 0) || (self.stat & 0x10 != 0 && mode == 1)
            || (self.stat & 0x20 != 0 && mode == 2) || (self.stat & 0x40 != 0 && self.ly
            == self.lyc);
        let irq = if line && !self.stat_line { IF_STAT } else { 0 };
        self.stat_line = line;
        irq
    }

    /// Renders the background of line `ly` into the shade frame.
    pub fn render_line(&mut self)
        requires
            ppu_wf(old(self)@),
            old(self)@.ly < 144,
        ensures
            final(self)@ == (PpuView {
                frame: frame_with_line(old(self)@, old(self)@.ly as int),
                ..old(self)@
            }),
    {
        let ghost v = self@;
        let y = self.ly as usize;
        let mut x: usize = 0;
        while x < 160
            invariant
                y == v.ly,
                y < 144,
                x <= 160,
                ppu_wf(v),
                self@ == (PpuView { frame: self@.frame, ..v }),
                self@.frame.len() == FRAME_PIXELS,
                forall|i: int|
                    0 <= i < FRAME_PIXELS ==> self@.frame[i] == if y * 160 <= i < y * 160 + x {
                        bg_shade(v, i - y * 160, y as int)
                    } else {
                        v.frame[i]
                    },
            decreases 160 - x,
        {
            let shade = self.bg_shade_at(x, y);
            self.frame.set(y * 160 + x, shade);
            x = x + 1;
        }
        assert(self@.frame =~= frame_with_line(v, y as int));
    }

    fn bg_shade_at(&self, x: usize, y: usize) -> (s: u8)
        requires
            ppu_wf(self@),
            x < 160,
            y < 144,
        ensures
            s == bg_shade(self@, x as int, y as int),
    {
        if self.lcdc & LCDC_BG_ON == 0 {
            return 0;
        }
        let py = (y + self.scy as usize) % 256;
        let px = (x + self.scx as usize) % 256;
        let map_base: usize = if self.lcdc & LCDC_BG_MAP != 0 { 0x1C00 } else { 0x1800 };
        let tile = self.vram[map_base + (py / 8) * 32 + px / 8];
        let tile_addr: usize = if self.lcdc & LCDC_TILE_DATA != 0 {
            tile as usize * 16
        } else {
            let signed: i8 = tile as i8;
            (0x1000 + (signed as i32) * 16) as usize
        };
        let row = py % 8;
        let lo = self.vram[tile_addr + row * 2];
        let hi = self.vram[tile_addr + row * 2 + 1];
        let bit = (7 - px % 8) as u8;
        let color = (((hi >> bit) & 1) << 1u8) | ((lo >> bit) & 1);
        assert(color <= 3) by (bit_vector)
            requires color == (((hi >> bit) & 1) << 1u8) | ((lo >> bit) & 1);
        (self.bgp >> (color * 2)) & 3
    }

    pub fn read_stat(&self) -> (r: u8)
        requires
            ppu_wf(self@),
        ensures
            r == stat_value(self@),
            r & 3 == ppu_mode(self@),
    {
        let m = self.mode();
        let st = self.stat;
        let k: u8 = if self.ly == self.lyc { 0x04u8 } else { 0u8 };
        assert((0x80 | st | k | m) & 3 == m) by (bit_vector)
            requires
                st % 8 == 0,
                k == 0 || k == 4,
                m <= 3;
        0x80 | st | k | m
    }

    /// Only the interrupt enable bits (3-6) are writable.
    pub fn write_stat(&mut self, value: u8)
        requires
            ppu_wf(old(self)@),
        ensures
            ppu_wf(final(self)@),
            final(self)@ == (PpuView { stat: value & 0x78, ..old(self)@ }),
    {
        proof { lemma_u8_bits(value); }
        self.stat = value & 0x78;
    }

    pub fn read_bcps(&self) -> (r: u8)
        ensures
            r == self@.bcps | 0x40,
    {
        self.bcps | 0x40
    }

    pub fn write_bcps(&mut self, value: u8)
        ensures
            final(self)@ == (PpuView { bcps: value & 0xBF, ..old(self)@ }),
    {
        self.bcps = value & 0xBF;
    }

    pub fn read_bcpd(&self) -> (r: u8)
        requires
            ppu_wf(self@),
        ensures
            (self@.bcps & 0x3F) < 64,
            r == self@.bg_pal[(self@.bcps & 0x3F) as int],
    {
        proof { lemma_index_bits(self.bcps); }
        self.bg_pal[(self.bcps & 0x3F) as usize]
    }

    /// Data writes auto-increment the index when BCPS bit 7 is set.
    pub fn write_bcpd(&mut self, value: u8)
        requires
            ppu_wf(old(self)@),
        ensures
            ppu_wf(final(self)@),
            final(self)@ == (PpuView {
                bg_pal: old(self)@.bg_pal.update((old(self)@.bcps & 0x3F) as int, value),
                bcps: next_index(old(self)@.bcps),
                ..old(self)@
            }),
    {
        proof { lemma_index_bits(self.bcps); lemma_index_bits((self.bcps + 1) as u8); }
        self.bg_pal.set((self.bcps & 0x3F) as usize, value);
        if self.bcps & 0x80 != 0 {
            self.bcps = 0x80 | ((self.bcps + 1) & 0x3F);
        }
    }

    pub fn read_ocps(&self) -> (r: u8)
        ensures
            r == self@.ocps | 0x40,
    {
        self.ocps | 0x40
    }

    pub fn write_ocps(&mut self, value: u8)
        ensures
            final(self)@ == (PpuView { ocps: value & 0xBF, ..old(self)@ }),
    {
        self.ocps = value & 0xBF;
    }

    pub fn read_ocpd(&self) -> (r: u8)
        requires
            ppu_wf(self@),
        ensures
            (self@.ocps & 0x3F) < 64,
            r == self@.obj_pal[(self@.ocps & 0x3F) as int],
    {
        proof { lemma_index_bits(self.ocps); }
        self.obj_pal[(self.ocps & 0x3F) as usize]
    }

    pub fn write_ocpd(&mut self, value: u8)
        requires
            ppu_wf(old(self)@),
        ensures
            ppu_wf(final(self)@),
            final(self)@ == (PpuView {
                obj_pal: old(self)@.obj_pal.update((old(self)@.ocps & 0x3F) as int, value),
                ocps: next_index(old(self)@.ocps),
                ..old(self)@
            }),
    {
        proof { lemma_index_bits(self.ocps); lemma_index_bits((self.ocps + 1) as u8); }
        self.obj_pal.set((self.ocps & 0x3F) as usize, value);
        if self.ocps & 0x80 != 0 {
            self.ocps = 0x80 | ((self.ocps + 1) & 0x3F);
        }
    }

    /// Turning the LCD off resets the whole frame state.
    pub fn write_lcdc(&mut self, value: u8)
        ensures
            final(self)@ == lcdc_written(old(self)@, value),
    {
        let was_on = self.lcdc & LCDC_LCD_ON != 0;
        self.lcdc = value;
        if was_on && value & LCDC_LCD_ON == 0 {
            self.ly = 0;
            self.dot = 0;
            self.window_line = 0;
            self.wy_hit = false;
        }
    }
}

/// A dot never takes the line counter past the last line (153), and an LCDC
/// write only ever resets it.
pub proof fn lemma_ly_in_range(v: PpuView, value: u8)
    requires
        ppu_wf(v),
        v.ly <= 153,
    ensures
        ppu_step(v).0.ly <= 153,
        lcdc_written(v, value).ly <= 153,
{
}

/// `n` dots from `v` with no register writes.
pub open spec fn ppu_ticks(v: PpuView, n: nat) -> PpuView
    decreases n,
{
    if n == 0 {
        v
    } else {
        ppu_step(ppu_ticks(v, (n - 1) as nat)).0
    }
}

proof fn lemma_next_dot(m: int)
    requires
        m >= 0,
    ensures
        m % 456 == 455 ==> (m + 1) % 456 == 0 && (m + 1) / 456 == m / 456 + 1,
        m % 456 != 455 ==> (m + 1) % 456 == m % 456 + 1 && (m + 1) / 456 == m / 456,
        (m / 456) % 154 == 153 ==> (m / 456 + 1) % 154 == 0,
        (m / 456) % 154 != 153 ==> (m / 456 + 1) % 154 == (m / 456) % 154 + 1,
{
}

/// From the start of a frame with the LCD on and no register writes, LY
/// advances every 456 dots and wraps to 0 after line 153.
pub proof fn lemma_ly_after_ticks(v: PpuView, n: nat)
    requires
        v.lcdc & LCDC_LCD_ON != 0,
        v.ly == 0,
        v.dot == 0,
    ensures
        ppu_ticks(v, n).ly == (n / 456) % 154,
        ppu_ticks(v, n).dot == n % 456,
        ppu_ticks(v, n).lcdc == v.lcdc,
    decreases n,
{
    if n > 0 {
        let m = (n - 1) as nat;
        lemma_ly_after_ticks(v, m);
        lemma_next_dot(m as int);
    }
}

/// From the start of a frame, the dot that ends line 143 (dot 456 * 144)
/// raises the VBlank interrupt and marks the frame ready; no other dot of the
/// frame raises VBlank, and the frame stays ready from then on.
pub proof fn lemma_vblank_once_per_frame(v: PpuView, n: nat)
    requires
        v.lcdc & LCDC_LCD_ON != 0,
        v.ly == 0,
        v.dot == 0,
        !v.frame_ready,
        1 <= n < 456 * 154,
    ensures
        (ppu_step(ppu_ticks(v, (n - 1) as nat)).1 & IF_VBLANK != 0) <==> n == 456 * 144,
        ppu_ticks(v, n).frame_ready <==> n >= 456 * 144,
    decreases n,
{
    let m = (n - 1) as nat;
    lemma_ly_after_ticks(v, m);
    lemma_ly_after_ticks(v, n);
    lemma_next_dot(m as int);
    let w = ppu_ticks(v, m);
    let (x, irq) = ppu_step(w);
    let vb: u8 = if (w.dot + 1) as u16 == DOTS && advance_dot(w).ly == 144 { IF_VBLANK } else { 0 };
    assert(n / 456 < 154);
    assert(((vb | 0u8) & 1 != 0) == (vb == 1) && ((vb | 2u8) & 1 != 0) == (vb == 1)) by (bit_vector)
        requires vb == 0 || vb == 1;
    if m >= 1 {
        lemma_vblank_once_per_frame(v, m);
    }
}

} // verus!
