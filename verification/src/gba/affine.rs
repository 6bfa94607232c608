//! Affine (rotation/scaling) backgrounds: BG2 in mode 1, BG2 and BG3 in
//! mode 2. Each keeps an internal reference point, latched from BGxX/BGxY at
//! the first line of a frame and after a write to them, and advanced by
//! (PB, PD) after every line whether or not the layer is shown. Screen pixel
//! `x` samples the texture at the reference point plus `x` times (PA, PC).
use vstd::prelude::*;
use crate::bits::lemma_u16_bits;
use crate::gba::bus::{Bus, BusView, bus_wf, io16, io32, palette16};
use crate::gba::ppu::{HEIGHT, PpuView, WIDTH};

verus! {

/// A 28-bit reference-point register as a signed 20.8 fixed-point number.
pub open spec fn ref_reg(v: u32) -> i32 {
    ((v << 4u32) as i32) >> 4u32
}

/// First register (PA) of the affine group of background `bg` (2 or 3).
pub open spec fn affine_base(bg: int) -> int {
    0x020 + (bg - 2) * 0x10
}

/// A signed 8.8 parameter register.
pub open spec fn param(b: BusView, reg: int) -> int {
    (io16(b, reg) as i16) as int
}

/// The reference point background `bg` renders `line` from.
pub open spec fn ref_now(b: BusView, bg: int, line: int) -> (i32, i32) {
    let j = bg - 2;
    let base = affine_base(bg);
    if b.ppu.bg_ref_dirty[j] || line == 0 {
        (ref_reg(io32(b, base + 8)), ref_reg(io32(b, base + 12)))
    } else {
        b.ppu.bg_ref[j]
    }
}

/// The reference point after a line: moved by (PB, PD).
pub open spec fn ref_next(b: BusView, bg: int, r: (i32, i32)) -> (i32, i32) {
    let base = affine_base(bg);
    (
        r.0.wrapping_add((io16(b, base + 2) as i16) as i32),
        r.1.wrapping_add((io16(b, base + 6) as i16) as i32),
    )
}

/// Side of the square map in pixels: 128 << size.
pub open spec fn map_side(cnt: u16) -> int {
    let s = (cnt >> 14u16) & 3;
    if s == 0 { 128 } else if s == 1 { 256 } else if s == 2 { 512 } else { 1024 }
}

/// Palette index of affine background `bg` at screen pixel `x` from
/// reference point `r`; 0 is transparent. Outside the map the layer is
/// transparent unless the wrap bit repeats the map.
pub open spec fn affine_bg_index(b: BusView, bg: int, r: (i32, i32), x: int) -> int {
    let cnt = io16(b, 0x008 + bg * 2);
    let base = affine_base(bg);
    let size = map_side(cnt);
    let tx0 = (r.0 as int + param(b, base) * x) / 256;
    let ty0 = (r.1 as int + param(b, base + 4) * x) / 256;
    if cnt & 0x2000 == 0 && (tx0 < 0 || tx0 >= size || ty0 < 0 || ty0 >= size) {
        0
    } else {
        let tx = tx0 % size;
        let ty = ty0 % size;
        let char_base = ((cnt >> 2u16) & 3) as int * 0x4000;
        let screen_base = ((cnt >> 8u16) & 0x1F) as int * 0x800;
        let tile = b.vram[(screen_base + (ty / 8) * (size / 8) + tx / 8) % 0x1_0000] as int;
        b.vram[(char_base + tile * 64 + (ty % 8) * 8 + tx % 8) % 0x1_0000] as int
    }
}

/// What rendering affine background `bg` for `line` leaves: its line buffer
/// filled when `enabled`, and the reference point advanced.
pub open spec fn affine_rendered(b: BusView, bg: int, line: int, enabled: bool) -> BusView {
    let r = ref_now(b, bg, line);
    BusView {
        ppu: PpuView {
            bg_line: Seq::new(
                b.ppu.bg_line.len(),
                |k: int|
                    if enabled && bg * WIDTH <= k < bg * WIDTH + WIDTH && affine_bg_index(
                        b,
                        bg,
                        r,
                        k - bg * WIDTH,
                    ) != 0 {
                        palette16(b, affine_bg_index(b, bg, r, k - bg * WIDTH))
                    } else {
                        b.ppu.bg_line[k]
                    },
            ),
            bg_ref: b.ppu.bg_ref.update(bg - 2, ref_next(b, bg, r)),
            bg_ref_dirty: b.ppu.bg_ref_dirty.update(bg - 2, false),
            ..b.ppu
        },
        ..b
    }
}

/// `v / 256` rounded down, for `v` above -2^40.
pub(crate) fn floor_div256(v: i64) -> (q: i64)
    requires
        -0x100_0000_0000 < v < 0x100_0000_0000,
    ensures
        q == v / 256,
{
    let u: i64 = v + 0x100_0000_0000;
    u / 256 - 0x1_0000_0000
}

/// `v` modulo the map side `size`, in 0..size.
fn wrap_side(v: i64, size: i64) -> (r: i64)
    requires
        -0x100_0000_0000 < v < 0x100_0000_0000,
        size == 128 || size == 256 || size == 512 || size == 1024,
    ensures
        r == v % size,
{
    let u: i64 = v + 0x100_0000_0000;
    if size == 128 {
        u % 128
    } else if size == 256 {
        u % 256
    } else if size == 512 {
        u % 512
    } else {
        u % 1024
    }
}

impl Bus {
    fn affine_param(&self, reg: usize) -> (p: i64)
        requires
            bus_wf(self@),
            reg + 1 < 0x400,
        ensures
            p == param(self@, reg as int),
            -0x8000 <= p < 0x8000,
    {
        (self.io16(reg) as i16) as i64
    }

    /// The reference point for `line` (see `ref_now`).
    fn affine_ref_now(&self, bg: usize, line: usize) -> (r: (i32, i32))
        requires
            bus_wf(self@),
            bg == 2 || bg == 3,
        ensures
            r == ref_now(self@, bg as int, line as int),
    {
        let j = bg - 2;
        let base = 0x020 + j * 0x10;
        if self.ppu.bg_ref_dirty[j] || line == 0 {
            let x = self.io32(base + 8);
            let y = self.io32(base + 12);
            (((x << 4) as i32) >> 4, ((y << 4) as i32) >> 4)
        } else {
            self.ppu.bg_ref[j]
        }
    }

    /// Palette index at screen pixel `x` (see `affine_bg_index`).
    fn affine_bg_index(&self, bg: usize, r: (i32, i32), x: usize) -> (idx: usize)
        requires
            bus_wf(self@),
            bg == 2 || bg == 3,
            x < WIDTH,
        ensures
            idx == affine_bg_index(self@, bg as int, r, x as int),
            idx < 256,
    {
        let cnt = self.io16(0x008 + bg * 2);
        proof { lemma_u16_bits(cnt); }
        let base = 0x020 + (bg - 2) * 0x10;
        let pa = self.affine_param(base);
        let pc = self.affine_param(base + 4);
        let s = (cnt >> 14) & 3;
        let size: i64 = if s == 0 { 128 } else if s == 1 { 256 } else if s == 2 { 512 } else { 1024 };
        let xi = x as i64;
        assert(-0x8000 * 240 <= pa * xi <= 0x8000 * 240) by (nonlinear_arith)
            requires -0x8000 <= pa < 0x8000, 0 <= xi < 240;
        assert(-0x8000 * 240 <= pc * xi <= 0x8000 * 240) by (nonlinear_arith)
            requires -0x8000 <= pc < 0x8000, 0 <= xi < 240;
        let tx0 = floor_div256(r.0 as i64 + pa * xi);
        let ty0 = floor_div256(r.1 as i64 + pc * xi);
        if cnt & 0x2000 == 0 && (tx0 < 0 || tx0 >= size || ty0 < 0 || ty0 >= size) {
            return 0;
        }
        let tx = wrap_side(tx0, size) as usize;
        let ty = wrap_side(ty0, size) as usize;
        let char_base = ((cnt >> 2) & 3) as usize * 0x4000;
        let screen_base = ((cnt >> 8) & 0x1F) as usize * 0x800;
        let side = size as usize;
        assert((ty / 8) * (side / 8) <= 128 * 128) by (nonlinear_arith)
            requires ty < side, side <= 1024;
        let tile = self.vram[(screen_base + (ty / 8) * (side / 8) + tx / 8) % 0x1_0000] as usize;
        self.vram[(char_base + tile * 64 + (ty % 8) * 8 + tx % 8) % 0x1_0000] as usize
    }

    /// Renders affine background `bg` for `line` when `enabled`, and
    /// advances its reference point either way.
    pub fn render_affine_bg(&mut self, bg: usize, line: usize, enabled: bool)
        requires
            bus_wf(old(self)@),
            bg == 2 || bg == 3,
            line < HEIGHT,
        ensures
            bus_wf(final(self)@),
            final(self)@ == affine_rendered(old(self)@, bg as int, line as int, enabled),
    {
        let ghost b0 = self@;
        let r = self.affine_ref_now(bg, line);
        if enabled {
            let mut x: usize = 0;
            while x < WIDTH
                invariant
                    x <= WIDTH,
                    bg == 2 || bg == 3,
                    line < HEIGHT,
                    r == ref_now(b0, bg as int, line as int),
                    bus_wf(self@),
                    self@ == (BusView { ppu: PpuView { bg_line: self@.ppu.bg_line, ..b0.ppu }, ..b0 }),
                    self@.ppu.bg_line.len() == 4 * WIDTH,
                    forall|k: int|
                        0 <= k < 4 * WIDTH ==> #[trigger] self@.ppu.bg_line[k] == if bg * WIDTH <= k < bg
                            * WIDTH + x && affine_bg_index(b0, bg as int, r, k - bg * WIDTH) != 0 {
                            palette16(b0, affine_bg_index(b0, bg as int, r, k - bg * WIDTH))
                        } else {
                            b0.ppu.bg_line[k]
                        },
                decreases WIDTH - x,
            {
                let idx = self.affine_bg_index(bg, r, x);
                if idx != 0 {
                    let c = self.palette16(idx);
                    self.ppu.bg_line.set(bg * WIDTH + x, c);
                }
                x = x + 1;
            }
        }
        let base = 0x020 + (bg - 2) * 0x10;
        let pb = self.io16(base + 2) as i16;
        let pd = self.io16(base + 6) as i16;
        let next = (r.0.wrapping_add(pb as i32), r.1.wrapping_add(pd as i32));
        self.ppu.bg_ref[bg - 2] = next;
        self.ppu.bg_ref_dirty[bg - 2] = false;
        assert(self@.ppu.bg_line =~= affine_rendered(b0, bg as int, line as int, enabled).ppu.bg_line);
        assert(self@.ppu.bg_ref =~= affine_rendered(b0, bg as int, line as int, enabled).ppu.bg_ref);
        assert(self@.ppu.bg_ref_dirty =~= affine_rendered(b0, bg as int, line as int, enabled).ppu.bg_ref_dirty);
    }
}

} // verus!
