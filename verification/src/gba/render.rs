//! Scanline compositor. Three stages per line: the layer producers fill the
//! four background lines (text, affine and bitmap backgrounds) and the
//! sprite line, the window mask gates layers per pixel, and composition
//! picks the top two layers by priority and applies the colour special
//! effects.
use vstd::prelude::*;
use crate::bits::lemma_u16_bits;
use crate::gba::bus::{Bus, BusView, bus_wf, io16, le16, palette16};
use crate::gba::affine::{affine_bg_index, affine_rendered, ref_next, ref_now};
use crate::gba::sprites::{obj_first, obj_window_from, objects_rendered};
use crate::gba::ppu::{
    HEIGHT, PpuView, TRANSPARENT, WIDTH, alpha_blend, blank_objs, blended, brighten, brightened,
    darken, darkened, lemma_blend_fits, lemma_blended_channels, lemma_brightness_channels, channel, no_obj, no_window, win_contains, window_covers, words_of,
};

verus! {

// ------------------------------------------------------------------ stage 1: layers

/// Palette index of text background `bg` at screen pixel (`x`, `line`);
/// 0 is transparent.
pub open spec fn text_bg_index(b: BusView, bg: int, line: int, x: int) -> int {
    let cnt = io16(b, 0x008 + bg * 2);
    let hofs = (io16(b, 0x010 + bg * 4) & 0x1FF) as int;
    let vofs = (io16(b, 0x012 + bg * 4) & 0x1FF) as int;
    let char_base = ((cnt >> 2u16) & 3) as int * 0x4000;
    let screen_base = ((cnt >> 8u16) & 0x1F) as int * 0x800;
    // size 0: 256x256, 1: 512x256, 2: 256x512, 3: 512x512
    let size = (cnt >> 14u16) & 3;
    let w: int = if size == 1 || size == 3 { 512 } else { 256 };
    let h: int = if size >= 2 { 512 } else { 256 };
    let y = (line + vofs) % h;
    let xx = (x + hofs) % w;
    // 512-pixel maps are stitched from 32x32-tile screen blocks
    let sbb = if size == 0 {
        0
    } else if size == 1 {
        xx / 256
    } else if size == 2 {
        y / 256
    } else {
        xx / 256 + (y / 256) * 2
    };
    let entry_addr = screen_base + sbb * 0x800 + ((y / 8) % 32 * 32 + (xx / 8) % 32) * 2;
    let entry = le16(b.vram[entry_addr], b.vram[entry_addr + 1]);
    let tile = (entry & 0x3FF) as int;
    let px = if entry & 0x400 != 0 { 7 - xx % 8 } else { xx % 8 };
    let py = if entry & 0x800 != 0 { 7 - y % 8 } else { y % 8 };
    if cnt & 0x80 != 0 {
        b.vram[(char_base + tile * 64 + py * 8 + px) % 0x1_0000] as int
    } else {
        let byte = b.vram[(char_base + tile * 32 + py * 4 + px / 2) % 0x1_0000] as int;
        let nib = if px % 2 == 0 { byte % 16 } else { byte / 16 };
        if nib == 0 { 0 } else { ((entry >> 12u16) & 0xF) as int * 16 + nib }
    }
}

/// Colour of a palette index on a background layer.
pub open spec fn indexed_color(b: BusView, idx: int) -> u16 {
    if idx != 0 { palette16(b, idx) } else { TRANSPARENT }
}

pub open spec fn bg_enabled(dispcnt: u16, bg: int) -> bool {
    dispcnt & (0x100u16 << (bg as u16)) != 0
}

/// Whether background `bg` is an affine layer in `mode` (BG2 in mode 1,
/// BG2 and BG3 in mode 2).
pub open spec fn is_affine(mode: u16, bg: int) -> bool {
    (mode == 1 && bg == 2) || (mode == 2 && bg >= 2)
}

/// Pixel `x` of background layer `bg` after the layer stage.
pub open spec fn layer_pixel(b: BusView, dispcnt: u16, line: int, bg: int, x: int) -> u16 {
    let mode = dispcnt & 7;
    let page: int = if dispcnt & 0x10 != 0 { 0xA000 } else { 0 };
    if !bg_enabled(dispcnt, bg) {
        TRANSPARENT
    } else if mode == 0 || (mode == 1 && bg < 2) {
        indexed_color(b, text_bg_index(b, bg, line, x))
    } else if is_affine(mode, bg) {
        indexed_color(b, affine_bg_index(b, bg, ref_now(b, bg, line), x))
    } else if bg != 2 || mode <= 2 {
        TRANSPARENT
    } else if mode == 3 {
        // direct colour, 240x160
        let i = (line * 240 + x) * 2;
        le16(b.vram[i], b.vram[i + 1])
    } else if mode == 4 {
        // paletted, 240x160, two pages
        indexed_color(b, b.vram[page + line * 240 + x] as int)
    } else if line < 128 && x < 160 {
        // direct colour, 160x128, two pages
        let i = page + (line * 160 + x) * 2;
        le16(b.vram[i], b.vram[i + 1])
    } else {
        TRANSPARENT
    }
}

/// Entry `k` of the four background lines (row `k / WIDTH`).
pub open spec fn layer_at(b: BusView, dispcnt: u16, line: int, k: int) -> u16 {
    layer_pixel(b, dispcnt, line, k / (WIDTH as int), k % (WIDTH as int))
}

proof fn lemma_row_col(k: int, r: int)
    requires
        r * WIDTH <= k < r * WIDTH + WIDTH,
    ensures
        k / (WIDTH as int) == r,
        k % (WIDTH as int) == k - r * WIDTH,
{
}

/// Composition reads the layers, the registers and the palette, never the
/// frame it writes.
proof fn lemma_layers_frame_free(
    b: BusView,
    f: Seq<u16>,
    win: u8,
    x: int,
    s: int,
    top: (u16, u8),
    second: (u16, u8),
    found: int,
)
    ensures
        layers_from(b, win, x, s, top, second, found) == layers_from(
            BusView { ppu: PpuView { frame: f, ..b.ppu }, ..b },
            win,
            x,
            s,
            top,
            second,
            found,
        ),
    decreases 20 - s,
{
    let c = BusView { ppu: PpuView { frame: f, ..b.ppu }, ..b };
    if s < 20 && s >= 0 && found < 2 {
        assert(slot_pick(b, win, x, s) == slot_pick(c, win, x, s));
        match slot_pick(b, win, x, s) {
            Some(v) => {
                if found == 0 {
                    lemma_layers_frame_free(b, f, win, x, s + 1, v, second, 1);
                } else {
                    lemma_layers_frame_free(b, f, win, x, s + 1, top, v, 2);
                }
            },
            None => {
                lemma_layers_frame_free(b, f, win, x, s + 1, top, second, found);
            },
        }
    }
}

/// The reference points after the layer stage: each affine layer of the
/// mode moved on by a line.
pub open spec fn refs_after(b: BusView, line: int, mode: u16) -> Seq<(i32, i32)> {
    if mode == 1 {
        b.ppu.bg_ref.update(0, ref_next(b, 2, ref_now(b, 2, line)))
    } else if mode == 2 {
        b.ppu.bg_ref.update(0, ref_next(b, 2, ref_now(b, 2, line))).update(
            1,
            ref_next(b, 3, ref_now(b, 3, line)),
        )
    } else {
        b.ppu.bg_ref
    }
}

pub open spec fn dirty_after(b: BusView, mode: u16) -> Seq<bool> {
    if mode == 1 {
        b.ppu.bg_ref_dirty.update(0, false)
    } else if mode == 2 {
        seq![false, false]
    } else {
        b.ppu.bg_ref_dirty
    }
}

/// The layer stage of `line`: background lines filled, affine reference
/// points advanced, and the sprite line and OBJ window drawn when sprites
/// are enabled (cleared otherwise).
pub open spec fn layers_built(b: BusView, line: int, dispcnt: u16) -> BusView {
    let objs = dispcnt & 0x1000 != 0;
    BusView {
        ppu: PpuView {
            bg_line: Seq::new(
                4 * WIDTH as nat,
                |k: int| layer_at(b, dispcnt, line, k),
            ),
            bg_ref: refs_after(b, line, dispcnt & 7),
            bg_ref_dirty: dirty_after(b, dispcnt & 7),
            obj_line: Seq::new(
                WIDTH as nat,
                |x: int|
                    if objs {
                        obj_first(b.vram, b.oam, b.palette, dispcnt, line, x, 0)
                    } else {
                        no_obj()
                    },
            ),
            obj_window: Seq::new(
                WIDTH as nat,
                |x: int| objs && obj_window_from(b.vram, b.oam, b.palette, dispcnt, line, x, 0),
            ),
            ..b.ppu
        },
        ..b
    }
}

// ------------------------------------------------------------------ stage 2: windows

/// Per-pixel enable mask: bits 0-3 the backgrounds, 4 sprites, 5 colour
/// effects. With no window enabled everything is allowed.
pub open spec fn window_mask(b: BusView, x: int, line: int, dispcnt: u16) -> u8 {
    if dispcnt & 0xE000 == 0 {
        0x3F
    } else if dispcnt & 0x2000 != 0 && window_covers(io16(b, 0x040), x) && window_covers(
        io16(b, 0x044),
        line,
    ) {
        (io16(b, 0x048) as u8) & 0x3F
    } else if dispcnt & 0x4000 != 0 && window_covers(io16(b, 0x042), x) && window_covers(
        io16(b, 0x046),
        line,
    ) {
        ((io16(b, 0x048) >> 8u16) as u8) & 0x3F
    } else if dispcnt & 0x8000 != 0 && b.ppu.obj_window[x] {
        ((io16(b, 0x04A) >> 8u16) as u8) & 0x3F
    } else {
        (io16(b, 0x04A) as u8) & 0x3F
    }
}

// ------------------------------------------------------------------ stage 3: composition

/// Candidate `s` for pixel `x`, in drawing order: priority `s / 5`, then the
/// sprite layer before backgrounds 0-3. Layer ids: 0-3 backgrounds, 4 sprites.
pub open spec fn slot_pick(b: BusView, win: u8, x: int, s: int) -> Option<(u16, u8)> {
    let p = s / 5;
    let j = s % 5;
    if j == 0 {
        let op = b.ppu.obj_line[x];
        if win & 0x10 != 0 && op.color != TRANSPARENT && op.prio == p {
            Some((op.color, 4u8))
        } else {
            None
        }
    } else {
        let bg = j - 1;
        let c = b.ppu.bg_line[bg * WIDTH + x];
        if io16(b, 0x008 + bg * 2) & 3 == p && win & (1u8 << (bg as u8)) != 0 && c != TRANSPARENT {
            Some((c, bg as u8))
        } else {
            None
        }
    }
}

/// The top two visible layers from candidate `s` on, given what was found
/// so far; the backdrop (layer id 5) fills in for missing ones.
pub open spec fn layers_from(
    b: BusView,
    win: u8,
    x: int,
    s: int,
    top: (u16, u8),
    second: (u16, u8),
    found: int,
) -> ((u16, u8), (u16, u8))
    decreases 20 - s,
{
    if s >= 20 || s < 0 || found >= 2 {
        (top, second)
    } else {
        match slot_pick(b, win, x, s) {
            Some(c) => if found == 0 {
                layers_from(b, win, x, s + 1, c, second, 1)
            } else {
                layers_from(b, win, x, s + 1, top, c, 2)
            },
            None => layers_from(b, win, x, s + 1, top, second, found),
        }
    }
}

/// A 5-bit blend coefficient, saturating at 16.
pub open spec fn coeff(v: u16) -> u32 {
    if v < 16 { v as u32 } else { 16 }
}

/// Final colour of pixel `x` on `line`.
pub open spec fn composed_pixel(b: BusView, line: int, x: int, dispcnt: u16) -> u16 {
    let backdrop = palette16(b, 0);
    let win = window_mask(b, x, line, dispcnt);
    let (top, second) = layers_from(b, win, x, 0, (backdrop, 5u8), (backdrop, 5u8), 0);
    let bldcnt = io16(b, 0x050);
    let eva = coeff(io16(b, 0x052) & 0x1F);
    let evb = coeff((io16(b, 0x052) >> 8u16) & 0x1F);
    let evy = coeff(io16(b, 0x054) & 0x1F);
    let first_target = bldcnt & (1u16 << (top.1 as u16)) != 0;
    let second_target = bldcnt & (1u16 << ((8 + second.1) as u16)) != 0;
    let special_ok = win & 0x20 != 0;
    let op = b.ppu.obj_line[x];
    if top.1 == 4 && op.semi && second_target && special_ok {
        // semi-transparent sprites blend regardless of the effect mode
        blended(top.0, second.0, eva, evb)
    } else if special_ok && first_target {
        let m = (bldcnt >> 6u16) & 3;
        if m == 1 && second_target {
            blended(top.0, second.0, eva, evb)
        } else if m == 2 {
            brightened(top.0, evy)
        } else if m == 3 {
            darkened(top.0, evy)
        } else {
            top.0
        }
    } else {
        top.0
    }
}

/// The top two visible layers at pixel `x` of `line`, the backdrop filling in.
pub open spec fn top_two(b: BusView, line: int, x: int, dispcnt: u16) -> ((u16, u8), (u16, u8)) {
    let backdrop = palette16(b, 0);
    layers_from(b, window_mask(b, x, line, dispcnt), x, 0, (backdrop, 5u8), (backdrop, 5u8), 0)
}

/// Alpha blending: where the effect window allows it, BLDCNT selects alpha
/// mode, the top layer is a first target and the layer under it a second
/// target, each channel of the pixel is the top layer's weighted by EVA
/// (BLDALPHA bits 0-4, at most 16) plus the second layer's weighted by EVB
/// (bits 8-12, at most 16), over 16, saturating at 31.
pub proof fn lemma_alpha_blend_weights(b: BusView, line: int, x: int, dispcnt: u16)
    requires
        window_mask(b, x, line, dispcnt) & 0x20 != 0,
        (io16(b, 0x050) >> 6u16) & 3 == 1,
        io16(b, 0x050) & (1u16 << (top_two(b, line, x, dispcnt).0.1 as u16)) != 0,
        io16(b, 0x050) & (1u16 << ((8 + top_two(b, line, x, dispcnt).1.1) as u16)) != 0,
    ensures
        forall|k: int|
            0 <= k < 3 ==> {
                let top = top_two(b, line, x, dispcnt).0.0;
                let second = top_two(b, line, x, dispcnt).1.0;
                let ra = io16(b, 0x052) & 0x1F;
                let rb = (io16(b, 0x052) >> 8u16) & 0x1F;
                let eva: int = if ra < 16 { ra as int } else { 16 };
                let evb: int = if rb < 16 { rb as int } else { 16 };
                let s = (channel(top, k) * eva + channel(second, k) * evb) / 16;
                #[trigger] channel(composed_pixel(b, line, x, dispcnt), k) as int == if s < 31 { s } else { 31 }
            },
{
    let (top, second) = top_two(b, line, x, dispcnt);
    let eva = coeff(io16(b, 0x052) & 0x1F);
    let evb = coeff((io16(b, 0x052) >> 8u16) & 0x1F);
    assert(composed_pixel(b, line, x, dispcnt) == blended(top.0, second.0, eva, evb));
    lemma_blended_channels(top.0, second.0, eva, evb);
}

/// Brightness effects: where the effect window allows it and the top
/// layer is a first target (and not a semi-transparent sprite over a second
/// target, which blends instead), BLDCNT mode 2 moves each channel EVY/16 of
/// the way up to 31 and mode 3 EVY/16 of the way down to 0, with EVY from
/// BLDY bits 0-4, at most 16.
pub proof fn lemma_brightness_effects(b: BusView, line: int, x: int, dispcnt: u16)
    requires
        window_mask(b, x, line, dispcnt) & 0x20 != 0,
        io16(b, 0x050) & (1u16 << (top_two(b, line, x, dispcnt).0.1 as u16)) != 0,
        !(top_two(b, line, x, dispcnt).0.1 == 4 && b.ppu.obj_line[x].semi && io16(b, 0x050) & (1u16 << ((8
            + top_two(b, line, x, dispcnt).1.1) as u16)) != 0),
    ensures
        forall|k: int|
            0 <= k < 3 ==> {
                let top = top_two(b, line, x, dispcnt).0.0;
                let ry = io16(b, 0x054) & 0x1F;
                let evy: int = if ry < 16 { ry as int } else { 16 };
                let ch = channel(top, k) as int;
                let out = #[trigger] channel(composed_pixel(b, line, x, dispcnt), k) as int;
                &&& (io16(b, 0x050) >> 6u16) & 3 == 2 ==> out == ch + (31 - ch) * evy / 16
                &&& (io16(b, 0x050) >> 6u16) & 3 == 3 ==> out == ch - ch * evy / 16
            },
{
    let top = top_two(b, line, x, dispcnt).0;
    let evy = coeff(io16(b, 0x054) & 0x1F);
    lemma_brightness_channels(top.0, evy);
    let m = (io16(b, 0x050) >> 6u16) & 3;
    if m == 2 {
        assert(composed_pixel(b, line, x, dispcnt) == brightened(top.0, evy));
    } else if m == 3 {
        assert(composed_pixel(b, line, x, dispcnt) == darkened(top.0, evy));
    }
}

/// Row `line` of the frame replaced by `f(x)`.
pub open spec fn frame_row_set(b: BusView, line: int, row: Seq<u16>) -> BusView {
    BusView {
        ppu: PpuView {
            frame: Seq::new(
                b.ppu.frame.len(),
                |i: int|
                    if line * WIDTH <= i < line * WIDTH + WIDTH {
                        row[i - line * WIDTH]
                    } else {
                        b.ppu.frame[i]
                    },
            ),
            ..b.ppu
        },
        ..b
    }
}

pub open spec fn composed_row(b: BusView, line: int, dispcnt: u16) -> Seq<u16> {
    Seq::new(WIDTH as nat, |x: int| composed_pixel(b, line, x, dispcnt))
}

/// Line `line` rendered into the frame. Forced blank shows white.
pub open spec fn scanline_rendered(b: BusView, line: int) -> BusView {
    let dispcnt = io16(b, 0x000);
    if dispcnt & 0x80 != 0 {
        frame_row_set(b, line, Seq::new(WIDTH as nat, |_x: int| 0x7FFFu16))
    } else {
        let c = layers_built(b, line, dispcnt);
        frame_row_set(c, line, composed_row(c, line, dispcnt))
    }
}

fn coeff_of(v: u16) -> (r: u32)
    ensures
        r == coeff(v),
        r <= 16,
{
    if v < 16 { v as u32 } else { 16 }
}

impl Bus {
    /// Palette index of text background `bg` at (`x`, `line`).
    fn text_bg_index(&self, bg: usize, line: usize, x: usize) -> (idx: usize)
        requires
            bus_wf(self@),
            bg < 4,
            line < HEIGHT,
            x < WIDTH,
        ensures
            idx == text_bg_index(self@, bg as int, line as int, x as int),
            idx < 256,
    {
        let cnt = self.io16(0x008 + bg * 2);
        let hofs = self.io16(0x010 + bg * 4);
        let vofs = self.io16(0x012 + bg * 4);
        proof { lemma_u16_bits(cnt); lemma_u16_bits(hofs); lemma_u16_bits(vofs); }
        let hofs = (hofs & 0x1FF) as usize;
        let vofs = (vofs & 0x1FF) as usize;
        let char_base = ((cnt >> 2) & 3) as usize * 0x4000;
        let screen_base = ((cnt >> 8) & 0x1F) as usize * 0x800;
        let size = (cnt >> 14) & 3;
        let w: usize = if size == 1 || size == 3 { 512 } else { 256 };
        let h: usize = if size >= 2 { 512 } else { 256 };
        let y = (line + vofs) % h;
        let xx = (x + hofs) % w;
        let sbb: usize = if size == 0 {
            0
        } else if size == 1 {
            xx / 256
        } else if size == 2 {
            y / 256
        } else {
            xx / 256 + (y / 256) * 2
        };
        let entry_addr = screen_base + sbb * 0x800 + ((y / 8) % 32 * 32 + (xx / 8) % 32) * 2;
        let entry = u16_at(&self.vram, entry_addr);
        proof { lemma_u16_bits(entry); }
        let tile = (entry & 0x3FF) as usize;
        let px = if entry & 0x400 != 0 { 7 - xx % 8 } else { xx % 8 };
        let py = if entry & 0x800 != 0 { 7 - y % 8 } else { y % 8 };
        if cnt & 0x80 != 0 {
            self.vram[(char_base + tile * 64 + py * 8 + px) % 0x1_0000] as usize
        } else {
            let byte = self.vram[(char_base + tile * 32 + py * 4 + px / 2) % 0x1_0000] as usize;
            let nib = if px % 2 == 0 { byte % 16 } else { byte / 16 };
            if nib == 0 {
                0
            } else {
                ((entry >> 12) & 0xF) as usize * 16 + nib
            }
        }
    }

    fn indexed_color(&self, idx: usize) -> (c: u16)
        requires
            bus_wf(self@),
            idx < 512,
        ensures
            c == indexed_color(self@, idx as int),
    {
        if idx != 0 { self.palette16(idx) } else { TRANSPARENT }
    }

    /// Fills text background `bg`'s line buffer for `line`; index 0 leaves
    /// the pixel as it was.
    pub fn render_text_bg(&mut self, bg: usize, line: usize)
        requires
            bus_wf(old(self)@),
            bg < 4,
            line < HEIGHT,
        ensures
            bus_wf(final(self)@),
            final(self)@ == (BusView {
                ppu: PpuView {
                    bg_line: Seq::new(
                        4 * WIDTH as nat,
                        |k: int|
                            if bg * WIDTH <= k < bg * WIDTH + WIDTH && text_bg_index(
                                old(self)@,
                                bg as int,
                                line as int,
                                k - bg * WIDTH,
                            ) != 0 {
                                palette16(
                                    old(self)@,
                                    text_bg_index(old(self)@, bg as int, line as int, k - bg * WIDTH),
                                )
                            } else {
                                old(self)@.ppu.bg_line[k]
                            },
                    ),
                    ..old(self)@.ppu
                },
                ..old(self)@
            }),
    {
        let ghost b0 = self@;
        let mut x: usize = 0;
        while x < WIDTH
            invariant
                x <= WIDTH,
                bg < 4,
                line < HEIGHT,
                bus_wf(self@),
                self@ == (BusView { ppu: PpuView { bg_line: self@.ppu.bg_line, ..b0.ppu }, ..b0 }),
                self@.ppu.bg_line.len() == 4 * WIDTH,
                forall|k: int|
                    0 <= k < 4 * WIDTH ==> #[trigger] self@.ppu.bg_line[k] == if bg * WIDTH <= k < bg
                        * WIDTH + x && text_bg_index(b0, bg as int, line as int, k - bg * WIDTH) != 0 {
                        palette16(b0, text_bg_index(b0, bg as int, line as int, k - bg * WIDTH))
                    } else {
                        b0.ppu.bg_line[k]
                    },
            decreases WIDTH - x,
        {
            let idx = self.text_bg_index(bg, line, x);
            if idx != 0 {
                let c = self.palette16(idx);
                self.ppu.bg_line.set(bg * WIDTH + x, c);
            }
            x = x + 1;
        }
        assert(self@.ppu.bg_line =~= Seq::new(
            4 * WIDTH as nat,
            |k: int|
                if bg * WIDTH <= k < bg * WIDTH + WIDTH && text_bg_index(
                    b0,
                    bg as int,
                    line as int,
                    k - bg * WIDTH,
                ) != 0 {
                    palette16(b0, text_bg_index(b0, bg as int, line as int, k - bg * WIDTH))
                } else {
                    b0.ppu.bg_line[k]
                },
        ));
    }

    /// Background 2 of the bitmap modes 3-5 for `line`.
    fn render_bitmap(&mut self, line: usize, dispcnt: u16)
        requires
            bus_wf(old(self)@),
            line < HEIGHT,
            dispcnt & 7 >= 3,
        ensures
            bus_wf(final(self)@),
            final(self)@ == (BusView {
                ppu: PpuView {
                    bg_line: Seq::new(
                        4 * WIDTH as nat,
                        |k: int|
                            if 2 * WIDTH <= k < 3 * WIDTH {
                                layer_pixel(old(self)@, dispcnt, line as int, 2, k - 2 * WIDTH)
                            } else {
                                old(self)@.ppu.bg_line[k]
                            },
                    ),
                    ..old(self)@.ppu
                },
                ..old(self)@
            }),
    {
        let ghost b0 = self@;
        let mode = dispcnt & 7;
        let on = dispcnt & (0x100u16 << 2u16) != 0;
        let page: usize = if dispcnt & 0x10 != 0 { 0xA000 } else { 0 };
        let mut x: usize = 0;
        while x < WIDTH
            invariant
                x <= WIDTH,
                line < HEIGHT,
                mode == dispcnt & 7,
                mode >= 3,
                on == bg_enabled(dispcnt, 2),
                page == (if dispcnt & 0x10 != 0 { 0xA000int } else { 0int }),
                bus_wf(self@),
                self@ == (BusView { ppu: PpuView { bg_line: self@.ppu.bg_line, ..b0.ppu }, ..b0 }),
                self@.ppu.bg_line.len() == 4 * WIDTH,
                forall|k: int|
                    0 <= k < 4 * WIDTH ==> #[trigger] self@.ppu.bg_line[k] == if 2 * WIDTH <= k < 2
                        * WIDTH + x {
                        layer_pixel(b0, dispcnt, line as int, 2, k - 2 * WIDTH)
                    } else {
                        b0.ppu.bg_line[k]
                    },
            decreases WIDTH - x,
        {
            let c = if !on {
                TRANSPARENT
            } else if mode == 3 {
                u16_at(&self.vram, (line * 240 + x) * 2)
            } else if mode == 4 {
                let idx = self.vram[page + line * 240 + x] as usize;
                self.indexed_color(idx)
            } else if line < 128 && x < 160 {
                u16_at(&self.vram, page + (line * 160 + x) * 2)
            } else {
                TRANSPARENT
            };
            self.ppu.bg_line.set(2 * WIDTH + x, c);
            x = x + 1;
        }
        assert(self@.ppu.bg_line =~= Seq::new(
            4 * WIDTH as nat,
            |k: int|
                if 2 * WIDTH <= k < 3 * WIDTH {
                    layer_pixel(b0, dispcnt, line as int, 2, k - 2 * WIDTH)
                } else {
                    b0.ppu.bg_line[k]
                },
        ));
    }
}

/// The first `rows` background lines hold the layer stage's pixels for
/// `line`, the rest are still transparent.
pub open spec fn rows_done(b0: BusView, cur: Seq<u16>, line: int, dispcnt: u16, rows: int) -> bool {
    &&& cur.len() == 4 * WIDTH
    &&& forall|k: int|
        0 <= k < 4 * WIDTH ==> #[trigger] cur[k] == if k < rows * WIDTH {
            layer_at(b0, dispcnt, line, k)
        } else {
            TRANSPARENT
        }
}

/// Rows the mode leaves empty are transparent in the layer stage: BG3 in
/// mode 1, BG0 and BG1 in mode 2.
proof fn lemma_empty_rows(b0: BusView, cur: Seq<u16>, line: int, dispcnt: u16, from: int, to: int)
    requires
        rows_done(b0, cur, line, dispcnt, from),
        (dispcnt & 7 == 1 && from == 3 && to == 4) || (dispcnt & 7 == 2 && from == 0 && to == 2),
    ensures
        rows_done(b0, cur, line, dispcnt, to),
{
    assert forall|k: int| 0 <= k < 4 * WIDTH implies #[trigger] cur[k] == if k < to * WIDTH {
        layer_at(b0, dispcnt, line, k)
    } else {
        TRANSPARENT
    } by {
        if from * WIDTH <= k < to * WIDTH {
            if k < WIDTH {
                lemma_row_col(k, 0);
            } else if k < 2 * WIDTH {
                lemma_row_col(k, 1);
            } else {
                lemma_row_col(k, 3);
            }
        }
    }
}

/// Rendering affine background `bg` on top of the rows before it completes
/// its row, and moves its reference point on.
proof fn lemma_affine_row(b0: BusView, c1: BusView, c2: BusView, line: int, dispcnt: u16, bg: int)
    requires
        bg == 2 || bg == 3,
        is_affine(dispcnt & 7, bg),
        c1.io == b0.io,
        c1.vram == b0.vram,
        c1.palette == b0.palette,
        c1.ppu.bg_ref[bg - 2] == b0.ppu.bg_ref[bg - 2],
        c1.ppu.bg_ref_dirty[bg - 2] == b0.ppu.bg_ref_dirty[bg - 2],
        rows_done(b0, c1.ppu.bg_line, line, dispcnt, bg),
        c2 == affine_rendered(c1, bg, line, bg_enabled(dispcnt, bg)),
    ensures
        rows_done(b0, c2.ppu.bg_line, line, dispcnt, bg + 1),
        ref_now(c1, bg, line) == ref_now(b0, bg, line),
        ref_next(c1, bg, ref_now(c1, bg, line)) == ref_next(b0, bg, ref_now(b0, bg, line)),
{
    assert forall|k: int| 0 <= k < 4 * WIDTH implies #[trigger] c2.ppu.bg_line[k] == if k < (bg + 1)
        * WIDTH {
        layer_at(b0, dispcnt, line, k)
    } else {
        TRANSPARENT
    } by {
        if bg * WIDTH <= k < bg * WIDTH + WIDTH {
            lemma_row_col(k, bg);
            let r = ref_now(c1, bg, line);
            assert(r == ref_now(b0, bg, line));
            assert(affine_bg_index(c1, bg, r, k - bg * WIDTH) == affine_bg_index(b0, bg, r, k - bg * WIDTH));
        }
    }
}

impl Bus {
    /// The text backgrounds of modes 0 (BG0-BG3) and 1 (BG0-BG1).
    fn render_text_layers(&mut self, line: usize, dispcnt: u16)
        requires
            bus_wf(old(self)@),
            line < HEIGHT,
            dispcnt & 7 == 0 || dispcnt & 7 == 1,
            rows_done(old(self)@, old(self)@.ppu.bg_line, line as int, dispcnt, 0),
        ensures
            bus_wf(final(self)@),
            final(self)@ == (BusView { ppu: PpuView { bg_line: final(self)@.ppu.bg_line, ..old(self)@.ppu }, ..old(self)@ }),
            rows_done(old(self)@, final(self)@.ppu.bg_line, line as int, dispcnt, if dispcnt & 7 == 0 { 4 } else { 2 }),
    {
        let ghost b0 = self@;
        let mode = dispcnt & 7;
        let n: usize = if mode == 0 { 4 } else { 2 };
        let mut i: usize = 0;
        while i < n
            invariant
                i <= n <= 4,
                n == (if mode == 0 { 4usize } else { 2usize }),
                mode == dispcnt & 7,
                mode == 0 || mode == 1,
                line < HEIGHT,
                bus_wf(self@),
                self@ == (BusView { ppu: PpuView { bg_line: self@.ppu.bg_line, ..b0.ppu }, ..b0 }),
                rows_done(b0, self@.ppu.bg_line, line as int, dispcnt, i as int),
            decreases n - i,
        {
            let ghost before = self@;
            if dispcnt & (0x100u16 << (i as u16)) != 0 {
                self.render_text_bg(i, line);
            }
            assert forall|k: int| 0 <= k < 4 * WIDTH implies #[trigger] self@.ppu.bg_line[k] == if k
                < (i + 1) * WIDTH {
                layer_at(b0, dispcnt, line as int, k)
            } else {
                TRANSPARENT
            } by {
                assert(before.ppu.bg_line[k] == if k < i * WIDTH {
                    layer_at(b0, dispcnt, line as int, k)
                } else {
                    TRANSPARENT
                });
                if i * WIDTH <= k < i * WIDTH + WIDTH {
                    lemma_row_col(k, i as int);
                    assert(text_bg_index(before, i as int, line as int, k - i * WIDTH) == text_bg_index(
                        b0,
                        i as int,
                        line as int,
                        k - i * WIDTH,
                    ));
                }
            }
            i = i + 1;
        }
    }
}

impl Bus {
    /// Per-pixel enable mask (see `window_mask`).
    fn window_mask(&self, x: usize, line: usize, dispcnt: u16) -> (m: u8)
        requires
            bus_wf(self@),
            x < WIDTH,
        ensures
            m == window_mask(self@, x as int, line as int, dispcnt),
    {
        if dispcnt & 0xE000 == 0 {
            return 0x3F;
        }
        if dispcnt & 0x2000 != 0 && win_contains(self.io16(0x040), x) && win_contains(
            self.io16(0x044),
            line,
        ) {
            return (self.io16(0x048) as u8) & 0x3F;
        }
        if dispcnt & 0x4000 != 0 && win_contains(self.io16(0x042), x) && win_contains(
            self.io16(0x046),
            line,
        ) {
            return ((self.io16(0x048) >> 8) as u8) & 0x3F;
        }
        if dispcnt & 0x8000 != 0 && self.ppu.obj_window[x] {
            return ((self.io16(0x04A) >> 8) as u8) & 0x3F;
        }
        (self.io16(0x04A) as u8) & 0x3F
    }

    fn slot_pick(&self, win: u8, x: usize, s: usize) -> (r: Option<(u16, u8)>)
        requires
            bus_wf(self@),
            x < WIDTH,
            s < 20,
        ensures
            r == slot_pick(self@, win, x as int, s as int),
            r matches Some(c) ==> c.1 <= 4,
    {
        let p = s / 5;
        let j = s % 5;
        if j == 0 {
            let op = self.ppu.obj_line[x];
            if win & 0x10 != 0 && op.color != TRANSPARENT && op.prio as usize == p {
                Some((op.color, 4u8))
            } else {
                None
            }
        } else {
            let bg = j - 1;
            let c = self.ppu.bg_line[bg * WIDTH + x];
            let cnt = self.io16(0x008 + bg * 2);
            proof { lemma_u16_bits(cnt); }
            let prio = cnt & 3;
            if prio as usize == p && win & (1u8 << (bg as u8)) != 0 && c != TRANSPARENT {
                Some((c, bg as u8))
            } else {
                None
            }
        }
    }

    /// The top two visible layers of pixel `x` under window mask `win`.
    fn pixel_layers(&self, win: u8, x: usize, backdrop: u16) -> (r: ((u16, u8), (u16, u8)))
        requires
            bus_wf(self@),
            x < WIDTH,
        ensures
            r == layers_from(self@, win, x as int, 0, (backdrop, 5u8), (backdrop, 5u8), 0),
            r.0.1 <= 5,
            r.1.1 <= 5,
    {
        let mut top = (backdrop, 5u8);
        let mut second = (backdrop, 5u8);
        let mut found: u8 = 0;
        let mut s: usize = 0;
        while s < 20 && found < 2
            invariant
                s <= 20,
                found <= 2,
                top.1 <= 5,
                second.1 <= 5,
                bus_wf(self@),
                x < WIDTH,
                layers_from(self@, win, x as int, s as int, top, second, found as int)
                    == layers_from(self@, win, x as int, 0, (backdrop, 5u8), (backdrop, 5u8), 0),
            decreases 20 - s,
        {
            match self.slot_pick(win, x, s) {
                Some(c) => {
                    if found == 0 {
                        top = c;
                        found = 1;
                    } else {
                        second = c;
                        found = 2;
                    }
                },
                None => {},
            }
            s = s + 1;
        }
        (top, second)
    }
}

impl Bus {
    /// Final colour of pixel `x`; the blend registers come in pre-read.
    fn compose_pixel(
        &self,
        line: usize,
        x: usize,
        dispcnt: u16,
        backdrop: u16,
        bldcnt: u16,
        eva: u32,
        evb: u32,
        evy: u32,
    ) -> (c: u16)
        requires
            bus_wf(self@),
            x < WIDTH,
            backdrop == palette16(self@, 0),
            bldcnt == io16(self@, 0x050),
            eva == coeff(io16(self@, 0x052) & 0x1F),
            evb == coeff((io16(self@, 0x052) >> 8u16) & 0x1F),
            evy == coeff(io16(self@, 0x054) & 0x1F),
        ensures
            c == composed_pixel(self@, line as int, x as int, dispcnt),
    {
        let win = self.window_mask(x, line, dispcnt);
        let (top, second) = self.pixel_layers(win, x, backdrop);
        let first_target = bldcnt & (1u16 << (top.1 as u16)) != 0;
        let second_target = bldcnt & (1u16 << ((8 + second.1) as u16)) != 0;
        let special_ok = win & 0x20 != 0;
        let op = self.ppu.obj_line[x];
        proof { lemma_blend_fits(top.0, second.0, eva, evb); }
        if top.1 == 4 && op.semi && second_target && special_ok {
            alpha_blend(top.0, second.0, eva, evb)
        } else if special_ok && first_target {
            let m = (bldcnt >> 6) & 3;
            if m == 1 && second_target {
                alpha_blend(top.0, second.0, eva, evb)
            } else if m == 2 {
                brighten(top.0, evy)
            } else if m == 3 {
                darken(top.0, evy)
            } else {
                top.0
            }
        } else {
            top.0
        }
    }

    /// Stages 2 and 3 for `line`: windows, priorities and effects.
    fn compose(&mut self, line: usize, dispcnt: u16)
        requires
            bus_wf(old(self)@),
            line < HEIGHT,
        ensures
            bus_wf(final(self)@),
            final(self)@ == frame_row_set(old(self)@, line as int, composed_row(old(self)@, line as int, dispcnt)),
    {
        let ghost b0 = self@;
        let backdrop = self.palette16(0);
        let bldcnt = self.io16(0x050);
        let bldalpha = self.io16(0x052);
        let eva = coeff_of(bldalpha & 0x1F);
        let evb = coeff_of((bldalpha >> 8) & 0x1F);
        let evy = coeff_of(self.io16(0x054) & 0x1F);
        let mut x: usize = 0;
        while x < WIDTH
            invariant
                x <= WIDTH,
                line < HEIGHT,
                bus_wf(self@),
                self@ == (BusView { ppu: PpuView { frame: self@.ppu.frame, ..b0.ppu }, ..b0 }),
                self@.ppu.frame.len() == b0.ppu.frame.len(),
                backdrop == palette16(b0, 0),
                bldcnt == io16(b0, 0x050),
                eva == coeff(io16(b0, 0x052) & 0x1F),
                evb == coeff((io16(b0, 0x052) >> 8u16) & 0x1F),
                evy == coeff(io16(b0, 0x054) & 0x1F),
                forall|i: int|
                    0 <= i < self@.ppu.frame.len() ==> #[trigger] self@.ppu.frame[i] == if line * WIDTH
                        <= i < line * WIDTH + x {
                        composed_pixel(b0, line as int, i - line * WIDTH, dispcnt)
                    } else {
                        b0.ppu.frame[i]
                    },
            decreases WIDTH - x,
        {
            let c = self.compose_pixel(line, x, dispcnt, backdrop, bldcnt, eva, evb, evy);
            proof {
                lemma_layers_frame_free(
                    b0,
                    self@.ppu.frame,
                    window_mask(b0, x as int, line as int, dispcnt),
                    x as int,
                    0,
                    (backdrop, 5u8),
                    (backdrop, 5u8),
                    0,
                );
            }
            assert(composed_pixel(self@, line as int, x as int, dispcnt) == composed_pixel(
                b0,
                line as int,
                x as int,
                dispcnt,
            ));
            self.ppu.frame.set(line * WIDTH + x, c);
            x = x + 1;
        }
        assert(self@.ppu.frame =~= frame_row_set(b0, line as int, composed_row(b0, line as int, dispcnt)).ppu.frame);
    }

    /// Renders one completed scanline (driven by the next line's start event).
    pub fn render_scanline(&mut self, line: usize)
        requires
            bus_wf(old(self)@),
            line < HEIGHT,
        ensures
            bus_wf(final(self)@),
            final(self)@ == scanline_rendered(old(self)@, line as int),
    {
        let ghost b0 = self@;
        let dispcnt = self.io16(0x000);
        if dispcnt & 0x80 != 0 {
            // forced blank: the LCD shows white
            let mut x: usize = 0;
            while x < WIDTH
                invariant
                    x <= WIDTH,
                    line < HEIGHT,
                    bus_wf(self@),
                    self@ == (BusView { ppu: PpuView { frame: self@.ppu.frame, ..b0.ppu }, ..b0 }),
                    self@.ppu.frame.len() == b0.ppu.frame.len(),
                    forall|i: int|
                        0 <= i < self@.ppu.frame.len() ==> #[trigger] self@.ppu.frame[i] == if line
                            * WIDTH <= i < line * WIDTH + x {
                            0x7FFFu16
                        } else {
                            b0.ppu.frame[i]
                        },
                decreases WIDTH - x,
            {
                self.ppu.frame.set(line * WIDTH + x, 0x7FFF);
                x = x + 1;
            }
            assert(self@.ppu.frame =~= scanline_rendered(b0, line as int).ppu.frame);
            return;
        }
        // stage 1: layer producers
        self.ppu.bg_line = words_of(4 * WIDTH, TRANSPARENT);
        self.ppu.obj_line = blank_objs();
        self.ppu.obj_window = no_window();
        let mode = dispcnt & 7;
        assert(rows_done(b0, self@.ppu.bg_line, line as int, dispcnt, 0));
        if mode == 0 || mode == 1 {
            self.render_text_layers(line, dispcnt);
            if mode == 1 {
                let ghost c1 = self@;
                self.render_affine_bg(2, line, dispcnt & (0x100u16 << 2u16) != 0);
                proof {
                    lemma_affine_row(b0, c1, self@, line as int, dispcnt, 2);
                    lemma_empty_rows(b0, self@.ppu.bg_line, line as int, dispcnt, 3, 4);
                }
            }
        } else if mode == 2 {
            proof { lemma_empty_rows(b0, self@.ppu.bg_line, line as int, dispcnt, 0, 2); }
            let ghost c1 = self@;
            self.render_affine_bg(2, line, dispcnt & (0x100u16 << 2u16) != 0);
            let ghost c2 = self@;
            proof { lemma_affine_row(b0, c1, c2, line as int, dispcnt, 2); }
            self.render_affine_bg(3, line, dispcnt & (0x100u16 << 3u16) != 0);
            proof { lemma_affine_row(b0, c2, self@, line as int, dispcnt, 3); }
        } else {
            self.render_bitmap(line, dispcnt);
            assert forall|k: int| 0 <= k < 4 * WIDTH implies #[trigger] self@.ppu.bg_line[k] == layer_at(
                b0,
                dispcnt,
                line as int,
                k,
            ) by {
                if k < WIDTH {
                    lemma_row_col(k, 0);
                } else if k < 2 * WIDTH {
                    lemma_row_col(k, 1);
                } else if k < 3 * WIDTH {
                    lemma_row_col(k, 2);
                } else {
                    lemma_row_col(k, 3);
                }
            }
        }
        assert(self@.ppu.bg_line =~= layers_built(b0, line as int, dispcnt).ppu.bg_line);
        assert(self@.ppu.bg_ref =~= layers_built(b0, line as int, dispcnt).ppu.bg_ref);
        assert(self@.ppu.bg_ref_dirty =~= layers_built(b0, line as int, dispcnt).ppu.bg_ref_dirty);
        if dispcnt & 0x1000 != 0 {
            self.render_objects(line, dispcnt);
        }
        assert(self@.ppu.obj_line =~= layers_built(b0, line as int, dispcnt).ppu.obj_line);
        assert(self@.ppu.obj_window =~= layers_built(b0, line as int, dispcnt).ppu.obj_window);
        assert(self@ == layers_built(b0, line as int, dispcnt));
        self.compose(line, dispcnt);
    }
}

/// The little-endian halfword at `i`.
fn u16_at(v: &Vec<u8>, i: usize) -> (r: u16)
    requires
        i + 1 < v.len(),
    ensures
        r == le16(v@[i as int], v@[i + 1]),
{
    proof { crate::bits::lemma_join(v@[i + 1], v@[i as int]); }
    (v[i + 1] as u16) << 8 | v[i] as u16
}

} // verus!
