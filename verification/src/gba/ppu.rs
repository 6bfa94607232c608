//! Scanline compositor state and its pixel arithmetic: colour expansion,
//! window ranges and the colour special effects (alpha blend, brighten,
//! darken).
use vstd::prelude::*;
use crate::bits::lemma_u16_bits;
use crate::machine::Rgb;
use crate::state::{Reader, StateError, Writer, bool_byte};
use vstd::bytes::{spec_u32_to_le_bytes, spec_u32_from_le_bytes};

verus! {

pub const WIDTH: usize = 240;
pub const HEIGHT: usize = 160;
/// Bit 15 is unused by BGR555; it marks "no pixel from this layer".
pub const TRANSPARENT: u16 = 0x8000;

#[derive(Clone, Copy, PartialEq, Eq, Debug, Structural)]
pub struct ObjPx {
    /// TRANSPARENT if no sprite covers the pixel.
    pub color: u16,
    pub prio: u8,
    pub semi: bool,
}

pub open spec fn no_obj() -> ObjPx {
    ObjPx { color: TRANSPARENT, prio: 4, semi: false }
}

pub struct PpuView {
    pub frame: Seq<u16>,
    pub frame_ready: bool,
    pub bg_line: Seq<u16>,
    pub obj_line: Seq<ObjPx>,
    pub obj_window: Seq<bool>,
    pub bg_ref: Seq<(i32, i32)>,
    pub bg_ref_dirty: Seq<bool>,
}

pub open spec fn gba_ppu_wf(v: PpuView) -> bool {
    &&& v.frame.len() == WIDTH * HEIGHT
    &&& v.bg_line.len() == 4 * WIDTH
    &&& v.obj_line.len() == WIDTH
    &&& v.obj_window.len() == WIDTH
    &&& v.bg_ref.len() == 2
    &&& v.bg_ref_dirty.len() == 2
}

/// The persisted part of the PPU: the latched affine reference points
/// (as 32-bit two's complement) and their dirty flags.
pub open spec fn ppu_state_bytes(v: PpuView) -> Seq<u8> {
    spec_u32_to_le_bytes(v.bg_ref[0].0 as u32) + spec_u32_to_le_bytes(v.bg_ref[0].1 as u32)
        + spec_u32_to_le_bytes(v.bg_ref[1].0 as u32) + spec_u32_to_le_bytes(v.bg_ref[1].1 as u32)
        + seq![bool_byte(v.bg_ref_dirty[0]), bool_byte(v.bg_ref_dirty[1])]
}

pub struct Ppu {
    /// BGR555 per pixel, row-major 240x160.
    pub frame: Vec<u16>,
    /// Set when scanline 159 completes.
    pub frame_ready: bool,
    pub bg_line: Vec<u16>,
    pub obj_line: Vec<ObjPx>,
    pub obj_window: Vec<bool>,
    /// Affine BG2/BG3 internal reference point (8-bit fraction).
    pub bg_ref: [(i32, i32); 2],
    pub bg_ref_dirty: [bool; 2],
}

impl View for Ppu {
    type V = PpuView;

    open spec fn view(&self) -> PpuView {
        PpuView {
            frame: self.frame@,
            frame_ready: self.frame_ready,
            bg_line: self.bg_line@,
            obj_line: self.obj_line@,
            obj_window: self.obj_window@,
            bg_ref: self.bg_ref@,
            bg_ref_dirty: self.bg_ref_dirty@,
        }
    }
}

pub(crate) fn words_of(n: usize, v: u16) -> (r: Vec<u16>)
    ensures
        r@ == Seq::new(n as nat, |_i: int| v),
{
    let mut r: Vec<u16> = Vec::new();
    let mut i: usize = 0;
    while i < n
        invariant
            i <= n,
            r@ == Seq::new(i as nat, |_i: int| v),
        decreases n - i,
    {
        r.push(v);
        i = i + 1;
        assert(r@ =~= Seq::new(i as nat, |_i: int| v));
    }
    r
}

/// A scanline with no sprite pixels.
pub(crate) fn blank_objs() -> (r: Vec<ObjPx>)
    ensures
        r@ == Seq::new(WIDTH as nat, |_i: int| no_obj()),
{
    let mut r: Vec<ObjPx> = Vec::new();
    let mut i: usize = 0;
    while i < WIDTH
        invariant
            i <= WIDTH,
            r@ == Seq::new(i as nat, |_i: int| no_obj()),
        decreases WIDTH - i,
    {
        r.push(ObjPx { color: TRANSPARENT, prio: 4, semi: false });
        i = i + 1;
        assert(r@ =~= Seq::new(i as nat, |_i: int| no_obj()));
    }
    r
}

/// A scanline with no sprite-window pixels.
pub(crate) fn no_window() -> (r: Vec<bool>)
    ensures
        r@ == Seq::new(WIDTH as nat, |_i: int| false),
{
    let mut r: Vec<bool> = Vec::new();
    let mut i: usize = 0;
    while i < WIDTH
        invariant
            i <= WIDTH,
            r@ == Seq::new(i as nat, |_i: int| false),
        decreases WIDTH - i,
    {
        r.push(false);
        i = i + 1;
        assert(r@ =~= Seq::new(i as nat, |_i: int| false));
    }
    r
}

impl Ppu {
    pub fn new() -> (p: Self)
        ensures
            gba_ppu_wf(p@),
            p@.frame == Seq::new((WIDTH * HEIGHT) as nat, |_i: int| 0u16),
            !p@.frame_ready,
            p@.bg_line == Seq::new((4 * WIDTH) as nat, |_i: int| TRANSPARENT),
            p@.obj_line == Seq::new(WIDTH as nat, |_i: int| no_obj()),
            p@.obj_window == Seq::new(WIDTH as nat, |_i: int| false),
            p@.bg_ref == seq![(0i32, 0i32), (0i32, 0i32)],
            p@.bg_ref_dirty == seq![true, true],
    {
        let obj_line = blank_objs();
        let obj_window = no_window();
        let p = Ppu {
            frame: words_of(WIDTH * HEIGHT, 0),
            frame_ready: false,
            bg_line: words_of(4 * WIDTH, TRANSPARENT),
            obj_line,
            obj_window,
            bg_ref: [(0, 0), (0, 0)],
            bg_ref_dirty: [true, true],
        };
        assert(p.bg_ref@ =~= seq![(0i32, 0i32), (0i32, 0i32)]);
        assert(p.bg_ref_dirty@ =~= seq![true, true]);
        p
    }

    /// Only the latched affine state persists; frame and scratch regenerate.
    pub fn serialize(&self, w: &mut Writer)
        ensures
            final(w).buf@ == old(w).buf@ + ppu_state_bytes(self@),
    {
        w.put_u32(self.bg_ref[0].0 as u32);
        w.put_u32(self.bg_ref[0].1 as u32);
        w.put_u32(self.bg_ref[1].0 as u32);
        w.put_u32(self.bg_ref[1].1 as u32);
        w.put_bool(self.bg_ref_dirty[0]);
        w.put_bool(self.bg_ref_dirty[1]);
        assert(w.buf@ =~= old(w).buf@ + ppu_state_bytes(self@));
    }

    pub fn deserialize(&mut self, r: &mut Reader) -> (res: Result<(), StateError>)
        requires
            gba_ppu_wf(old(self)@),
        ensures
            gba_ppu_wf(final(self)@),
            ({
                let s = old(r).rest();
                &&& s.len() >= 18 ==> res is Ok && final(self)@ == (PpuView {
                    bg_ref: seq![
                        (spec_u32_from_le_bytes(s.subrange(0, 4)) as i32, spec_u32_from_le_bytes(s.subrange(4, 8)) as i32),
                        (spec_u32_from_le_bytes(s.subrange(8, 12)) as i32, spec_u32_from_le_bytes(s.subrange(12, 16)) as i32),
                    ],
                    bg_ref_dirty: seq![s[16] != 0, s[17] != 0],
                    ..old(self)@
                }) && final(r).rest() == s.skip(18)
                &&& s.len() < 18 ==> res == Err::<(), StateError>(StateError::Truncated)
            }),
    {
        let ghost s = r.rest();
        let x0 = r.get_u32()?;
        let y0 = r.get_u32()?;
        let x1 = r.get_u32()?;
        let y1 = r.get_u32()?;
        let d0 = r.get_bool()?;
        let d1 = r.get_bool()?;
        proof {
            assert(s.skip(4).take(4) =~= s.subrange(4, 8));
            assert(s.skip(4).skip(4).take(4) =~= s.subrange(8, 12));
            assert(s.skip(4).skip(4).skip(4).take(4) =~= s.subrange(12, 16));
            assert(s.take(4) =~= s.subrange(0, 4));
            assert(s.skip(4).skip(4).skip(4).skip(4).skip(1).skip(1) =~= s.skip(18));
        }
        self.bg_ref = [(x0 as i32, y0 as i32), (x1 as i32, y1 as i32)];
        self.bg_ref_dirty = [d0, d1];
        assert(self.bg_ref@ =~= seq![(x0 as i32, y0 as i32), (x1 as i32, y1 as i32)]);
        assert(self.bg_ref_dirty@ =~= seq![d0, d1]);
        Ok(())
    }
}

impl Default for Ppu {
    fn default() -> (p: Self)
        ensures
            gba_ppu_wf(p@),
    {
        Ppu::new()
    }
}

/// Channel `k` (0 red, 1 green, 2 blue) of a BGR555 colour.
pub open spec fn channel(c: u16, k: int) -> u16 {
    (c >> ((5 * k) as u16)) & 31
}

proof fn lemma_channels(c: u16)
    ensures
        channel(c, 0) == c & 31,
        channel(c, 1) == (c >> 5u16) & 31,
        channel(c, 2) == (c >> 10u16) & 31,
        c & 31 < 32,
        (c >> 5u16) & 31 < 32,
        (c >> 10u16) & 31 < 32,
{
    lemma_u16_bits(c);
}

/// A BGR555 colour from three 5-bit channels.
pub open spec fn pack(r: u16, g: u16, b: u16) -> u16 {
    (r + g * 32 + b * 1024) as u16
}

/// A 5-bit channel widened to 8 bits (top bits replicated).
pub open spec fn expand5(v: u16) -> u8 {
    ((v * 8 + v / 4) % 256) as u8
}

/// GBA colour 0bbbbbgggggrrrrr expanded to 8 bits per channel.
pub fn bgr555_to_rgb(c: u16) -> (rgb: Rgb)
    ensures
        rgb == Rgb(expand5(channel(c, 0)), expand5(channel(c, 1)), expand5(channel(c, 2))),
{
    proof { lemma_channels(c); }
    let r = c & 31;
    let g = (c >> 5) & 31;
    let b = (c >> 10) & 31;
    Rgb(widen5(r), widen5(g), widen5(b))
}

fn widen5(v: u16) -> (e: u8)
    requires
        v < 32,
    ensures
        e == expand5(v),
{
    assert(((v << 3u16) | (v >> 2u16)) == v * 8 + v / 4) by (bit_vector)
        requires v < 32;
    ((v << 3) | (v >> 2)) as u8
}

/// WINnH/WINnV: high byte = start, low byte = end + 1; start > end wraps.
pub open spec fn window_covers(reg: u16, p: int) -> bool {
    let lo = (reg / 256) as int;
    let hi = (reg % 256) as int;
    if lo <= hi { lo <= p < hi } else { p >= lo || p < hi }
}

pub fn win_contains(reg: u16, p: usize) -> (r: bool)
    ensures
        r == window_covers(reg, p as int),
{
    assert((reg >> 8u16) == reg / 256 && (reg & 0xFF) == reg % 256) by (bit_vector);
    let lo = (reg >> 8) as usize;
    let hi = (reg & 0xFF) as usize;
    if lo <= hi {
        lo <= p && p < hi
    } else {
        p >= lo || p < hi
    }
}

/// One channel of an alpha blend: weighted sum over 16, saturating at 31.
pub open spec fn blend_channel(ca: int, cb: int, eva: int, evb: int) -> int {
    let s = (ca * eva + cb * evb) / 16;
    if s < 31 { s } else { 31 }
}

/// An alpha blend of `a` over `b` with weights `eva`/16 and `evb`/16.
pub open spec fn blended(a: u16, b: u16, eva: u32, evb: u32) -> u16 {
    pack(
        blend_channel(channel(a, 0) as int, channel(b, 0) as int, eva as int, evb as int) as u16,
        blend_channel(channel(a, 1) as int, channel(b, 1) as int, eva as int, evb as int) as u16,
        blend_channel(channel(a, 2) as int, channel(b, 2) as int, eva as int, evb as int) as u16,
    )
}

/// `c` brightened by `evy`/16 toward white.
pub open spec fn brightened(c: u16, evy: u32) -> u16 {
    pack(
        brighten_channel(channel(c, 0) as int, evy as int) as u16,
        brighten_channel(channel(c, 1) as int, evy as int) as u16,
        brighten_channel(channel(c, 2) as int, evy as int) as u16,
    )
}

/// `c` darkened by `evy`/16 toward black.
pub open spec fn darkened(c: u16, evy: u32) -> u16 {
    pack(
        darken_channel(channel(c, 0) as int, evy as int) as u16,
        darken_channel(channel(c, 1) as int, evy as int) as u16,
        darken_channel(channel(c, 2) as int, evy as int) as u16,
    )
}

/// Each channel of an alpha blend is `a`'s channel weighted by `eva`/16
/// plus `b`'s weighted by `evb`/16, saturating at 31.
pub proof fn lemma_blended_channels(a: u16, b: u16, eva: u32, evb: u32)
    ensures
        forall|k: int|
            0 <= k < 3 ==> #[trigger] channel(blended(a, b, eva, evb), k) as int == if (channel(a, k) * eva
                + channel(b, k) * evb) / 16 < 31 {
                (channel(a, k) * eva + channel(b, k) * evb) / 16
            } else {
                31
            },
{
    lemma_channels(a);
    lemma_channels(b);
    let r = blend_channel(channel(a, 0) as int, channel(b, 0) as int, eva as int, evb as int);
    let g = blend_channel(channel(a, 1) as int, channel(b, 1) as int, eva as int, evb as int);
    let bb = blend_channel(channel(a, 2) as int, channel(b, 2) as int, eva as int, evb as int);
    assert(0 <= channel(a, 0) * eva && 0 <= channel(b, 0) * evb) by (nonlinear_arith);
    assert(0 <= channel(a, 1) * eva && 0 <= channel(b, 1) * evb) by (nonlinear_arith);
    assert(0 <= channel(a, 2) * eva && 0 <= channel(b, 2) * evb) by (nonlinear_arith);
    assert(0 <= r <= 31 && 0 <= g <= 31 && 0 <= bb <= 31);
    lemma_pack_channels(r as u16, g as u16, bb as u16);
}

/// Three 5-bit channels packed into a colour come back out unchanged.
proof fn lemma_pack_channels(r: u16, g: u16, bb: u16)
    requires
        r < 32,
        g < 32,
        bb < 32,
    ensures
        channel(pack(r, g, bb), 0) == r,
        channel(pack(r, g, bb), 1) == g,
        channel(pack(r, g, bb), 2) == bb,
{
    lemma_channels(pack(r, g, bb));
    assert({
        &&& ((r + g * 32 + bb * 1024) as u16) & 31 == r
        &&& (((r + g * 32 + bb * 1024) as u16) >> 5u16) & 31 == g
        &&& (((r + g * 32 + bb * 1024) as u16) >> 10u16) & 31 == bb
    }) by (bit_vector)
        requires
            r < 32,
            g < 32,
            bb < 32,
    ;
}

/// Brightening moves each channel `evy`/16 of the way up to 31; darkening
/// moves it `evy`/16 of the way down to 0 (rounding toward the channel).
pub proof fn lemma_brightness_channels(c: u16, evy: u32)
    requires
        evy <= 16,
    ensures
        forall|k: int|
            0 <= k < 3 ==> #[trigger] channel(brightened(c, evy), k) as int == channel(c, k) + (31
                - channel(c, k)) * evy / 16,
        forall|k: int|
            0 <= k < 3 ==> #[trigger] channel(darkened(c, evy), k) as int == channel(c, k) - channel(c, k)
                * evy / 16,
{
    lemma_channels(c);
    assert forall|k: int| 0 <= k < 3 implies {
        &&& 0 <= #[trigger] brighten_channel(channel(c, k) as int, evy as int) <= 31
        &&& 0 <= darken_channel(channel(c, k) as int, evy as int) <= 31
    } by {
        let ch = channel(c, k) as int;
        assert(0 <= (31 - ch) * evy / 16 <= 31 - ch) by (nonlinear_arith)
            requires 0 <= ch <= 31, evy <= 16;
        assert(0 <= ch * evy / 16 <= ch) by (nonlinear_arith)
            requires 0 <= ch <= 31, evy <= 16;
    }
    assert(0 <= brighten_channel(channel(c, 0) as int, evy as int) <= 31);
    assert(0 <= brighten_channel(channel(c, 1) as int, evy as int) <= 31);
    assert(0 <= brighten_channel(channel(c, 2) as int, evy as int) <= 31);
    lemma_pack_channels(
        brighten_channel(channel(c, 0) as int, evy as int) as u16,
        brighten_channel(channel(c, 1) as int, evy as int) as u16,
        brighten_channel(channel(c, 2) as int, evy as int) as u16,
    );
    lemma_pack_channels(
        darken_channel(channel(c, 0) as int, evy as int) as u16,
        darken_channel(channel(c, 1) as int, evy as int) as u16,
        darken_channel(channel(c, 2) as int, evy as int) as u16,
    );
}

/// Weights of at most 16 always fit.
pub proof fn lemma_blend_fits(a: u16, b: u16, eva: u32, evb: u32)
    requires
        eva <= 16,
        evb <= 16,
    ensures
        blend_fits(a, b, eva, evb),
{
    lemma_channels(a);
    lemma_channels(b);
    assert forall|k: int| 0 <= k < 3 implies channel(a, k) * eva + channel(b, k) * evb <= u32::MAX by {
        assert(channel(a, k) < 32 && channel(b, k) < 32);
        assert(channel(a, k) * eva <= 31 * 16) by (nonlinear_arith)
            requires channel(a, k) < 32, eva <= 16;
        assert(channel(b, k) * evb <= 31 * 16) by (nonlinear_arith)
            requires channel(b, k) < 32, evb <= 16;
    }
}

/// Whether the weighted sums fit the 32-bit arithmetic.
pub open spec fn blend_fits(a: u16, b: u16, eva: u32, evb: u32) -> bool {
    forall|k: int| 0 <= k < 3 ==> channel(a, k) * eva + channel(b, k) * evb <= u32::MAX
}

pub fn alpha_blend(a: u16, b: u16, eva: u32, evb: u32) -> (out: u16)
    requires
        blend_fits(a, b, eva, evb),
    ensures
        out == blended(a, b, eva, evb),
{
    proof { lemma_channels(a); lemma_channels(b); }
    assert(blend_fits(a, b, eva, evb));
    let r = blend_one(a & 31, b & 31, eva, evb);
    assert(channel(a, 1) * eva + channel(b, 1) * evb <= u32::MAX);
    let g = blend_one((a >> 5) & 31, (b >> 5) & 31, eva, evb);
    assert(channel(a, 2) * eva + channel(b, 2) * evb <= u32::MAX);
    let bl = blend_one((a >> 10) & 31, (b >> 10) & 31, eva, evb);
    assert((r | (g << 5u16) | (bl << 10u16)) == r + g * 32 + bl * 1024) by (bit_vector)
        requires r < 32, g < 32, bl < 32;
    r | (g << 5) | (bl << 10)
}

fn blend_one(ca: u16, cb: u16, eva: u32, evb: u32) -> (c: u16)
    requires
        ca as int * eva + cb as int * evb <= u32::MAX,
    ensures
        c == blend_channel(ca as int, cb as int, eva as int, evb as int),
        c < 32,
{
    assert(ca as u32 * eva <= ca as int * eva + cb as int * evb) by (nonlinear_arith)
        requires cb as int * evb >= 0;
    let s = (ca as u32 * eva + cb as u32 * evb) / 16;
    if s < 31 { s as u16 } else { 31 }
}

/// One channel brightened by `evy`/16 toward white.
pub open spec fn brighten_channel(ch: int, evy: int) -> int {
    ch + (31 - ch) * evy / 16
}

/// One channel darkened by `evy`/16 toward black.
pub open spec fn darken_channel(ch: int, evy: int) -> int {
    ch - ch * evy / 16
}

pub fn brighten(c: u16, evy: u32) -> (out: u16)
    requires
        evy <= 16,
    ensures
        out == brightened(c, evy),
{
    proof { lemma_channels(c); }
    let r = brighten_one(c & 31, evy);
    let g = brighten_one((c >> 5) & 31, evy);
    let b = brighten_one((c >> 10) & 31, evy);
    assert((r | (g << 5u16) | (b << 10u16)) == r + g * 32 + b * 1024) by (bit_vector)
        requires r < 32, g < 32, b < 32;
    r | (g << 5) | (b << 10)
}

fn brighten_one(ch: u16, evy: u32) -> (c: u16)
    requires
        evy <= 16,
    ensures
        ch < 32 ==> c == brighten_channel(ch as int, evy as int) && c < 32,
{
    let ch = if ch < 32 { ch } else { 31 };
    assert((31 - ch as int) * evy <= 31 * 16) by (nonlinear_arith)
        requires ch < 32, evy <= 16;
    assert((31 - ch as int) * evy / 16 <= 31 - ch) by (nonlinear_arith)
        requires ch < 32, evy <= 16;
    (ch as u32 + (31 - ch as u32) * evy / 16) as u16
}

pub fn darken(c: u16, evy: u32) -> (out: u16)
    requires
        evy <= 16,
    ensures
        out == darkened(c, evy),
{
    proof { lemma_channels(c); }
    let r = darken_one(c & 31, evy);
    let g = darken_one((c >> 5) & 31, evy);
    let b = darken_one((c >> 10) & 31, evy);
    assert((r | (g << 5u16) | (b << 10u16)) == r + g * 32 + b * 1024) by (bit_vector)
        requires r < 32, g < 32, b < 32;
    r | (g << 5) | (b << 10)
}

fn darken_one(ch: u16, evy: u32) -> (c: u16)
    requires
        evy <= 16,
    ensures
        ch < 32 ==> c == darken_channel(ch as int, evy as int) && c < 32,
{
    let ch = if ch < 32 { ch } else { 31 };
    assert(ch as int * evy / 16 <= ch) by (nonlinear_arith)
        requires ch < 32, evy <= 16;
    assert(ch as int * evy <= 31 * 16) by (nonlinear_arith)
        requires ch < 32, evy <= 16;
    (ch as u32 - ch as u32 * evy / 16) as u16
}

/// Brightening by the full 16/16 gives white; darkening by it gives black.
pub proof fn lemma_full_effects(c: u16)
    ensures
        brighten_channel(channel(c, 0) as int, 16) == 31,
        darken_channel(channel(c, 0) as int, 16) == 0,
{
}

} // verus!
