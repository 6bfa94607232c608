//! The sprite (OBJ) line: 128 OAM entries, regular (with flips) or affine
//! (with the double-size canvas), 4bpp or 8bpp tiles in 1D or 2D mapping.
//! Among sprites covering a pixel the lowest OAM index wins it; sprites in
//! window mode mark the OBJ window instead of drawing.
use vstd::prelude::*;
use crate::bits::lemma_u16_bits;
use crate::gba::affine::floor_div256;
use crate::gba::bus::{Bus, BusView, bus_wf, le16};
use crate::gba::ppu::{HEIGHT, ObjPx, PpuView, WIDTH};

verus! {

/// Number of OAM entries.
pub const OBJ_COUNT: usize = 128;

pub open spec fn half_at(s: Seq<u8>, i: int) -> u16 {
    le16(s[i], s[i + 1])
}

/// Width and height of a sprite of `shape` (square, wide, tall) and
/// `size`; the prohibited shape is (0, 0) and never drawn.
pub open spec fn obj_dims(shape: int, size: int) -> (int, int) {
    if shape == 0 {
        if size == 0 { (8, 8) } else if size == 1 { (16, 16) } else if size == 2 { (32, 32) } else { (64, 64) }
    } else if shape == 1 {
        if size == 0 { (16, 8) } else if size == 1 { (32, 8) } else if size == 2 { (32, 16) } else { (64, 32) }
    } else if shape == 2 {
        if size == 0 { (8, 16) } else if size == 1 { (8, 32) } else if size == 2 { (16, 32) } else { (32, 64) }
    } else {
        (0, 0)
    }
}

/// Texel (`tx`, `ty`) of the sprite, if it is in the sprite, from its
/// canvas position (`lx`, `ly`). Affine sprites map the canvas centre to
/// the sprite centre through (PA, PB; PC, PD) of their parameter group.
#[verifier::opaque]
pub open spec fn obj_texel(oam: Seq<u8>, a0: u16, a1: u16, w: int, h: int, lx: int, ly: int) -> (int, int) {
    if a0 & 0x100 != 0 {
        let g = ((a1 >> 9u16) & 0x1F) as int;
        let pa = (half_at(oam, g * 32 + 6) as i16) as int;
        let pb = (half_at(oam, g * 32 + 14) as i16) as int;
        let pc = (half_at(oam, g * 32 + 22) as i16) as int;
        let pd = (half_at(oam, g * 32 + 30) as i16) as int;
        let cw = if a0 & 0x200 != 0 { 2 * w } else { w };
        let ch = if a0 & 0x200 != 0 { 2 * h } else { h };
        let dx = lx - cw / 2;
        let dy = ly - ch / 2;
        ((pa * dx + pb * dy) / 256 + w / 2, (pc * dx + pd * dy) / 256 + h / 2)
    } else {
        (
            if a1 & 0x1000 != 0 { w - 1 - lx } else { lx },
            if a1 & 0x2000 != 0 { h - 1 - ly } else { ly },
        )
    }
}

/// Palette index (0 transparent, else 1-255 into the OBJ palette) of
/// texel (`tx`, `ty`) of a `w`-wide sprite.
#[verifier::opaque]
pub open spec fn obj_index(vram: Seq<u8>, dispcnt: u16, a0: u16, a2: u16, w: int, tx: int, ty: int) -> int {
    let bpp8 = a0 & 0x2000 != 0;
    let step: int = if bpp8 { 2 } else { 1 };
    let row: int = if dispcnt & 0x40 != 0 { (w / 8) * step } else { 32 };
    let t = (a2 & 0x3FF) as int + (ty / 8) * row + (tx / 8) * step;
    if bpp8 {
        vram[0x1_0000 + (t * 32 + (ty % 8) * 8 + tx % 8) % 0x8000] as int
    } else {
        let byte = vram[0x1_0000 + (t * 32 + (ty % 8) * 4 + (tx % 8) / 2) % 0x8000] as int;
        let nib = if tx % 2 == 0 { byte % 16 } else { byte / 16 };
        if nib == 0 { 0 } else { ((a2 >> 12u16) & 0xF) as int * 16 + nib }
    }
}

/// Sprite `n` at pixel (`x`, `line`): its pixel, and whether it is a
/// window sprite; None where it is disabled, off the pixel, or transparent.
#[verifier::opaque]
pub open spec fn sprite_pixel(
    vram: Seq<u8>,
    oam: Seq<u8>,
    pal: Seq<u8>,
    dispcnt: u16,
    line: int,
    x: int,
    n: int,
) -> Option<(ObjPx, bool)> {
    let a0 = half_at(oam, n * 8);
    let a1 = half_at(oam, n * 8 + 2);
    let a2 = half_at(oam, n * 8 + 4);
    let (w, h) = obj_dims(((a0 >> 14u16) & 3) as int, ((a1 >> 14u16) & 3) as int);
    let double = a0 & 0x100 != 0 && a0 & 0x200 != 0;
    let cw = if double { 2 * w } else { w };
    let ch = if double { 2 * h } else { h };
    let xpos = (a1 & 0x1FF) as int;
    let lx = x - (if xpos >= 256 { xpos - 512 } else { xpos });
    let ly = (line - (a0 & 0xFF) as int) % 256;
    if (a0 & 0x100 == 0 && a0 & 0x200 != 0) || w == 0 || ly >= ch || lx < 0 || lx >= cw {
        None
    } else {
        let (tx, ty) = obj_texel(oam, a0, a1, w, h, lx, ly);
        if tx < 0 || tx >= w || ty < 0 || ty >= h {
            None
        } else {
            let idx = obj_index(vram, dispcnt, a0, a2, w, tx, ty);
            let mode = (a0 >> 10u16) & 3;
            if idx == 0 {
                None
            } else {
                Some(
                    (
                        ObjPx {
                            color: half_at(pal, (256 + idx) * 2),
                            prio: ((a2 >> 10u16) & 3) as u8,
                            semi: mode == 1,
                        },
                        mode == 2,
                    ),
                )
            }
        }
    }
}

/// The sprite pixel at `x`: the first drawing sprite from index `n` on.
pub open spec fn obj_first(
    vram: Seq<u8>,
    oam: Seq<u8>,
    pal: Seq<u8>,
    dispcnt: u16,
    line: int,
    x: int,
    n: int,
) -> ObjPx
    decreases 128 - n,
{
    if n < 0 || n >= 128 {
        ObjPx { color: 0x8000, prio: 4, semi: false }
    } else {
        match sprite_pixel(vram, oam, pal, dispcnt, line, x, n) {
            Some((px, false)) => px,
            _ => obj_first(vram, oam, pal, dispcnt, line, x, n + 1),
        }
    }
}

/// Whether a window sprite from index `n` on covers `x`.
pub open spec fn obj_window_from(
    vram: Seq<u8>,
    oam: Seq<u8>,
    pal: Seq<u8>,
    dispcnt: u16,
    line: int,
    x: int,
    n: int,
) -> bool
    decreases 128 - n,
{
    if n < 0 || n >= 128 {
        false
    } else {
        match sprite_pixel(vram, oam, pal, dispcnt, line, x, n) {
            Some((_, true)) => true,
            _ => obj_window_from(vram, oam, pal, dispcnt, line, x, n + 1),
        }
    }
}

/// The sprite stage of `line`: the sprite pixel and the OBJ window bit of
/// every column.
pub open spec fn objects_rendered(b: BusView, line: int, dispcnt: u16) -> BusView {
    BusView {
        ppu: PpuView {
            obj_line: Seq::new(
                WIDTH as nat,
                |x: int| obj_first(b.vram, b.oam, b.palette, dispcnt, line, x, 0),
            ),
            obj_window: Seq::new(
                WIDTH as nat,
                |x: int| obj_window_from(b.vram, b.oam, b.palette, dispcnt, line, x, 0),
            ),
            ..b.ppu
        },
        ..b
    }
}

fn dims(shape: u16, size: u16) -> (r: (i64, i64))
    ensures
        r.0 == obj_dims(shape as int, size as int).0,
        r.1 == obj_dims(shape as int, size as int).1,
{
    if shape == 0 {
        if size == 0 { (8, 8) } else if size == 1 { (16, 16) } else if size == 2 { (32, 32) } else { (64, 64) }
    } else if shape == 1 {
        if size == 0 { (16, 8) } else if size == 1 { (32, 8) } else if size == 2 { (32, 16) } else { (64, 32) }
    } else if shape == 2 {
        if size == 0 { (8, 16) } else if size == 1 { (8, 32) } else if size == 2 { (16, 32) } else { (32, 64) }
    } else {
        (0, 0)
    }
}

impl Bus {
    fn oam_at(&self, i: usize) -> (r: u16)
        requires
            bus_wf(self@),
            i + 1 < 0x400,
        ensures
            r == half_at(self@.oam, i as int),
    {
        self.oam16(i)
    }

    fn obj_param(&self, i: usize) -> (p: i64)
        requires
            bus_wf(self@),
            i + 1 < 0x400,
        ensures
            p == (half_at(self@.oam, i as int) as i16) as int,
            -0x8000 <= p < 0x8000,
    {
        (self.oam16(i) as i16) as i64
    }

    fn obj_texel(&self, a0: u16, a1: u16, w: i64, h: i64, lx: i64, ly: i64) -> (r: (i64, i64))
        requires
            bus_wf(self@),
            0 <= w <= 64,
            0 <= h <= 64,
            0 <= lx < 128,
            0 <= ly < 128,
        ensures
            r.0 == obj_texel(self@.oam, a0, a1, w as int, h as int, lx as int, ly as int).0,
            r.1 == obj_texel(self@.oam, a0, a1, w as int, h as int, lx as int, ly as int).1,
    {
        reveal(obj_texel);
        if a0 & 0x100 != 0 {
            proof { lemma_u16_bits(a1); }
            let g = ((a1 >> 9) & 0x1F) as usize;
            let pa = self.obj_param(g * 32 + 6);
            let pb = self.obj_param(g * 32 + 14);
            let pc = self.obj_param(g * 32 + 22);
            let pd = self.obj_param(g * 32 + 30);
            let cw = if a0 & 0x200 != 0 { 2 * w } else { w };
            let ch = if a0 & 0x200 != 0 { 2 * h } else { h };
            let dx = lx - cw / 2;
            let dy = ly - ch / 2;
            assert(-0x8000 * 128 <= pa * dx <= 0x8000 * 128) by (nonlinear_arith)
                requires -0x8000 <= pa < 0x8000, -128 <= dx <= 128;
            assert(-0x8000 * 128 <= pb * dy <= 0x8000 * 128) by (nonlinear_arith)
                requires -0x8000 <= pb < 0x8000, -128 <= dy <= 128;
            assert(-0x8000 * 128 <= pc * dx <= 0x8000 * 128) by (nonlinear_arith)
                requires -0x8000 <= pc < 0x8000, -128 <= dx <= 128;
            assert(-0x8000 * 128 <= pd * dy <= 0x8000 * 128) by (nonlinear_arith)
                requires -0x8000 <= pd < 0x8000, -128 <= dy <= 128;
            (floor_div256(pa * dx + pb * dy) + w / 2, floor_div256(pc * dx + pd * dy) + h / 2)
        } else {
            (
                if a1 & 0x1000 != 0 { w - 1 - lx } else { lx },
                if a1 & 0x2000 != 0 { h - 1 - ly } else { ly },
            )
        }
    }

    fn obj_index(&self, dispcnt: u16, a0: u16, a2: u16, w: i64, tx: i64, ty: i64) -> (idx: usize)
        requires
            bus_wf(self@),
            0 < w <= 64,
            0 <= tx < w,
            0 <= ty < 64,
        ensures
            idx == obj_index(self@.vram, dispcnt, a0, a2, w as int, tx as int, ty as int),
            idx < 256,
    {
        reveal(obj_index);
        proof { lemma_u16_bits(a2); }
        let bpp8 = a0 & 0x2000 != 0;
        let step: usize = if bpp8 { 2 } else { 1 };
        let wu = w as usize;
        let txu = tx as usize;
        let tyu = ty as usize;
        let row: usize = if dispcnt & 0x40 != 0 { (wu / 8) * step } else { 32 };
        assert((tyu / 8) * row <= 8 * 32) by (nonlinear_arith)
            requires tyu < 64, row <= 32;
        let t = (a2 & 0x3FF) as usize + (tyu / 8) * row + (txu / 8) * step;
        if bpp8 {
            self.vram[0x1_0000 + (t * 32 + (tyu % 8) * 8 + txu % 8) % 0x8000] as usize
        } else {
            let byte = self.vram[0x1_0000 + (t * 32 + (tyu % 8) * 4 + (txu % 8) / 2) % 0x8000] as usize;
            let nib = if txu % 2 == 0 { byte % 16 } else { byte / 16 };
            if nib == 0 {
                0
            } else {
                ((a2 >> 12) & 0xF) as usize * 16 + nib
            }
        }
    }

    /// Sprite `n` at pixel (`x`, `line`) (see `sprite_pixel`).
    #[verifier::rlimit(40)]
    fn sprite_pixel(&self, dispcnt: u16, line: usize, x: usize, n: usize) -> (r: Option<(ObjPx, bool)>)
        requires
            bus_wf(self@),
            line < HEIGHT,
            x < WIDTH,
            n < OBJ_COUNT,
        ensures
            r == sprite_pixel(self@.vram, self@.oam, self@.palette, dispcnt, line as int, x as int, n as int),
    {
        reveal(sprite_pixel);
        let a0 = self.oam_at(n * 8);
        let a1 = self.oam_at(n * 8 + 2);
        let a2 = self.oam_at(n * 8 + 4);
        proof { lemma_u16_bits(a0); lemma_u16_bits(a1); lemma_u16_bits(a2); }
        let (w, h) = dims((a0 >> 14) & 3, (a1 >> 14) & 3);
        let double = a0 & 0x100 != 0 && a0 & 0x200 != 0;
        let cw = if double { 2 * w } else { w };
        let ch = if double { 2 * h } else { h };
        let xpos = (a1 & 0x1FF) as i64;
        let lx = x as i64 - (if xpos >= 256 { xpos - 512 } else { xpos });
        let ly = ((line as i64 + 256 - (a0 & 0xFF) as i64) % 256) as i64;
        if (a0 & 0x100 == 0 && a0 & 0x200 != 0) || w == 0 || ly >= ch || lx < 0 || lx >= cw {
            return None;
        }
        let (tx, ty) = self.obj_texel(a0, a1, w, h, lx, ly);
        if tx < 0 || tx >= w || ty < 0 || ty >= h {
            return None;
        }
        let idx = self.obj_index(dispcnt, a0, a2, w, tx, ty);
        let mode = (a0 >> 10) & 3;
        if idx == 0 {
            None
        } else {
            let i = (256 + idx) * 2;
            let color = le16_pair(&self.palette, i);
            Some((ObjPx { color, prio: ((a2 >> 10) & 3) as u8, semi: mode == 1 }, mode == 2))
        }
    }

    fn obj_column(&self, dispcnt: u16, line: usize, x: usize) -> (r: (ObjPx, bool))
        requires
            bus_wf(self@),
            line < HEIGHT,
            x < WIDTH,
        ensures
            r.0 == obj_first(self@.vram, self@.oam, self@.palette, dispcnt, line as int, x as int, 0),
            r.1 == obj_window_from(self@.vram, self@.oam, self@.palette, dispcnt, line as int, x as int, 0),
    {
        let ghost b = self@;
        let mut found: Option<ObjPx> = None;
        let mut win = false;
        let mut n: usize = 0;
        while n < OBJ_COUNT
            invariant
                n <= OBJ_COUNT,
                bus_wf(self@),
                self@ == b,
                line < HEIGHT,
                x < WIDTH,
                match found {
                    Some(px) => px == obj_first(b.vram, b.oam, b.palette, dispcnt, line as int, x as int, 0),
                    None => obj_first(b.vram, b.oam, b.palette, dispcnt, line as int, x as int, 0)
                        == obj_first(b.vram, b.oam, b.palette, dispcnt, line as int, x as int, n as int),
                },
                win || obj_window_from(b.vram, b.oam, b.palette, dispcnt, line as int, x as int, 0)
                    == obj_window_from(b.vram, b.oam, b.palette, dispcnt, line as int, x as int, n as int),
                win ==> obj_window_from(b.vram, b.oam, b.palette, dispcnt, line as int, x as int, 0),
            decreases OBJ_COUNT - n,
        {
            match self.sprite_pixel(dispcnt, line, x, n) {
                Some((px, w)) => {
                    if w {
                        win = true;
                    } else if found.is_none() {
                        found = Some(px);
                    }
                },
                None => {},
            }
            n = n + 1;
        }
        let px = match found {
            Some(p) => p,
            None => ObjPx { color: 0x8000, prio: 4, semi: false },
        };
        (px, win)
    }

    /// Fills the sprite line and the OBJ window for `line`.
    pub fn render_objects(&mut self, line: usize, dispcnt: u16)
        requires
            bus_wf(old(self)@),
            line < HEIGHT,
        ensures
            bus_wf(final(self)@),
            final(self)@ == objects_rendered(old(self)@, line as int, dispcnt),
    {
        let ghost b0 = self@;
        let mut x: usize = 0;
        while x < WIDTH
            invariant
                x <= WIDTH,
                line < HEIGHT,
                bus_wf(self@),
                self@ == (BusView {
                    ppu: PpuView { obj_line: self@.ppu.obj_line, obj_window: self@.ppu.obj_window, ..b0.ppu },
                    ..b0
                }),
                self@.ppu.obj_line.len() == WIDTH,
                self@.ppu.obj_window.len() == WIDTH,
                forall|i: int|
                    0 <= i < x ==> #[trigger] self@.ppu.obj_line[i] == obj_first(
                        b0.vram,
                        b0.oam,
                        b0.palette,
                        dispcnt,
                        line as int,
                        i,
                        0,
                    ),
                forall|i: int|
                    0 <= i < x ==> #[trigger] self@.ppu.obj_window[i] == obj_window_from(
                        b0.vram,
                        b0.oam,
                        b0.palette,
                        dispcnt,
                        line as int,
                        i,
                        0,
                    ),
            decreases WIDTH - x,
        {
            let (px, w) = self.obj_column(dispcnt, line, x);
            self.ppu.obj_line.set(x, px);
            self.ppu.obj_window.set(x, w);
            x = x + 1;
        }
        assert(self@.ppu.obj_line =~= objects_rendered(b0, line as int, dispcnt).ppu.obj_line);
        assert(self@.ppu.obj_window =~= objects_rendered(b0, line as int, dispcnt).ppu.obj_window);
    }
}

/// The little-endian halfword at `i` of `v`.
fn le16_pair(v: &Vec<u8>, i: usize) -> (r: u16)
    requires
        i + 1 < v.len(),
    ensures
        r == half_at(v@, i as int),
{
    proof { crate::bits::lemma_join(v@[i + 1], v@[i as int]); }
    (v[i + 1] as u16) << 8 | v[i] as u16
}

} // verus!
