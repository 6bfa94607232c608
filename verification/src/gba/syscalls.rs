//! The BIOS system calls, run in software in the caller's context (no
//! supervisor-mode entry). Memory is reached through the ordinary bus paths,
//! so every access costs its cycle and the I/O write hooks fire.
use vstd::prelude::*;
use crate::bits::{lemma_u16_bits, lemma_u32_bits};
use crate::gba::bus::{
    BusView, bus_wf, clocked, le32, read16_value, read32_value, read8_value, stored16, stored32,
    stored8,
};
use crate::gba::bios::{arctan, arctan2, arctan2_value, arctan_value, isqrt};
use crate::gba::cpu::{Cpu, CpuView, ExecError, Outcome, cpu_wf, exec_addr_of, flushed_cpu, with_reg};
use crate::gba::registers::{Registers, RegistersView, post_bios_regs};

verus! {

/// Where the interrupt handler records acknowledged interrupts for IntrWait.
pub const BIOS_IF: u32 = 0x0300_7FF8;

// ------------------------------------------------------------------ memory fills

/// `n` zero words stored from `lo` upward, one access each.
pub open spec fn zeroed_from(b: BusView, lo: u32, n: nat) -> BusView
    decreases n,
{
    if n == 0 {
        b
    } else {
        stored32(clocked(zeroed_from(b, lo, (n - 1) as nat)), (lo + 4 * (n - 1)) as u32, 0)
    }
}

/// The memories RegisterRamReset wipes (r0 bits 0-4).
pub open spec fn memories_reset(b: BusView, f: u32) -> BusView {
    let b1 = if f & 0x01 != 0 { zeroed_from(b, 0x0200_0000, 0x1_0000) } else { b };
    // IWRAM minus the BIOS work area
    let b2 = if f & 0x02 != 0 { zeroed_from(b1, 0x0300_0000, 0x1F80) } else { b1 };
    let b3 = if f & 0x04 != 0 { zeroed_from(b2, 0x0500_0000, 0x100) } else { b2 };
    let b4 = if f & 0x08 != 0 { zeroed_from(b3, 0x0600_0000, 0x6000) } else { b3 };
    if f & 0x10 != 0 { zeroed_from(b4, 0x0700_0000, 0x100) } else { b4 }
}

/// The register groups RegisterRamReset wipes (r0 bits 5-7).
pub open spec fn registers_reset(b: BusView, f: u32) -> BusView {
    // serial registers, the keypad pair at 0x130-0x133 excluded
    let b6 = if f & 0x20 != 0 {
        zeroed_from(zeroed_from(b, 0x0400_0120, 4), 0x0400_0134, 10)
    } else {
        b
    };
    // sound registers
    let b7 = if f & 0x40 != 0 { zeroed_from(b6, 0x0400_0060, 20) } else { b6 };
    // the other registers: video without DISPCNT, DMA, timers, IE/IF/IME
    if f & 0x80 != 0 {
        zeroed_from(zeroed_from(zeroed_from(b7, 0x0400_0004, 23), 0x0400_00B0, 24), 0x0400_0200, 3)
    } else {
        b7
    }
}

/// RegisterRamReset: wipe what `f` selects, then blank the screen.
pub open spec fn ram_reset(b: BusView, f: u32) -> BusView {
    stored16(clocked(registers_reset(memories_reset(b, f), f)), 0x0400_0000, 0x0080)
}

/// SoftReset: clear the BIOS work area, reset the registers and restart at
/// the entry the flag byte at 0x03007FFA selects (ROM, or EWRAM if set).
pub open spec fn soft_reset_done(c: CpuView) -> CpuView {
    let b1 = clocked(c.bus);
    let flag = read8_value(b1, 0x0300_7FFA);
    let b2 = zeroed_from(b1, 0x0300_7E00, 128);
    let entry: u32 = if flag == 0 { 0x0800_0000 } else { 0x0200_0000 };
    flushed_cpu(
        CpuView {
            regs: RegistersView { r: post_bios_regs().r.update(15, entry), ..post_bios_regs() },
            bus: b2,
            ..c
        },
    )
}

// ------------------------------------------------------------------ copies

/// One CpuSet/CpuFastSet unit: read a new value unless filling past the
/// first unit, then store it.
pub open spec fn set_from(
    b: BusView,
    src: u32,
    dst: u32,
    value: u32,
    fill: bool,
    unit: u32,
    i: nat,
    n: nat,
) -> BusView
    decreases n - i,
{
    if i >= n {
        b
    } else {
        let read = !fill || i == 0;
        let b1 = if read { clocked(b) } else { b };
        let v = if !read {
            value
        } else if unit == 4 {
            read32_value(b1, src)
        } else {
            read16_value(b1, src) as u32
        };
        let s = if read && !fill { src.wrapping_add(unit) } else { src };
        let b2 = if unit == 4 { stored32(clocked(b1), dst, v) } else { stored16(clocked(b1), dst, v as u16) };
        set_from(b2, s, dst.wrapping_add(unit), v, fill, unit, i + 1, n)
    }
}

/// CpuSet: r0 source, r1 destination, r2 = count | fill << 24 | word << 26.
pub open spec fn cpu_set_done(b: BusView, src: u32, dst: u32, ctrl: u32) -> BusView {
    let unit: u32 = if ctrl & 0x400_0000 != 0 { 4 } else { 2 };
    set_from(
        b,
        (src - src % unit) as u32,
        (dst - dst % unit) as u32,
        0,
        ctrl & 0x100_0000 != 0,
        unit,
        0,
        (ctrl & 0x1F_FFFF) as nat,
    )
}

/// CpuFastSet: words only, the count rounded up to a multiple of eight.
pub open spec fn cpu_fast_set_done(b: BusView, src: u32, dst: u32, ctrl: u32) -> BusView {
    let count = ((ctrl & 0x1F_FFFF) + 7) / 8 * 8;
    set_from(b, (src - src % 4) as u32, (dst - dst % 4) as u32, 0, ctrl & 0x100_0000 != 0, 4, 0, count as nat)
}

// ------------------------------------------------------------------ arithmetic

/// Quotient rounded toward zero, before wrapping to 32 bits.
pub open spec fn trunc_quotient(n: i32, d: i32) -> int {
    let q = abs_int(n as int) / abs_int(d as int);
    if (n < 0) != (d < 0) { -q } else { q }
}

pub open spec fn abs_int(v: int) -> int {
    if v < 0 { -v } else { v }
}

/// Div: r0 = n / d, r1 = n % d, r3 = |n / d| (the quotient wrapped to 32
/// bits, so i32::MIN / -1 gives i32::MIN).
pub open spec fn divided(c: CpuView, n: i32, d: i32) -> CpuView {
    let tq = trunc_quotient(n, d);
    let q: i32 = if tq > i32::MAX { i32::MIN } else { tq as i32 };
    let r: i32 = (n - tq * d) as i32;
    let aq: u32 = abs_int(q as int) as u32;
    with_reg(with_reg(with_reg(c, 0, q as u32), 1, r as u32), 3, aq)
}

/// Div's results: for a divisor other than zero (and other than the one
/// overflowing case, i32::MIN / -1), r0 is the quotient and r1 the
/// remainder: r0 * d + r1 == n, the remainder is smaller than the divisor
/// in magnitude and has the dividend's sign (or is zero), and r3 is the
/// quotient's magnitude.
#[verifier::spinoff_prover]
pub proof fn lemma_div_results(c: CpuView, n: i32, d: i32)
    requires
        c.regs.r.len() == 16,
        d != 0,
        !(n == i32::MIN && d == -1),
    ensures
        ({
            let q = divided(c, n, d).regs.r[0] as i32;
            let r = divided(c, n, d).regs.r[1] as i32;
            &&& q * d + r == n
            &&& abs_int(r as int) < abs_int(d as int)
            &&& r == 0 || (r < 0) == (n < 0)
            &&& divided(c, n, d).regs.r[3] as int == abs_int(q as int)
        }),
{
    let an = abs_int(n as int);
    let ad = abs_int(d as int);
    let q0 = an / ad;
    let m0 = an % ad;
    assert(an == q0 * ad + m0 && 0 <= m0 < ad) by (nonlinear_arith)
        requires ad > 0, an >= 0, q0 == an / ad, m0 == an % ad;
    assert(q0 <= an && (ad >= 2 ==> q0 * 2 <= an)) by (nonlinear_arith)
        requires ad >= 1, an >= 0, q0 == an / ad;
    let tq = trunc_quotient(n, d);
    assert(tq <= i32::MAX && tq >= i32::MIN);
    let rem = n - tq * d;
    assert(rem == if n < 0 { -m0 } else { m0 }) by (nonlinear_arith)
        requires
            an == q0 * ad + m0,
            an == abs_int(n as int),
            ad == abs_int(d as int),
            tq == (if (n < 0) != (d < 0) { -q0 } else { q0 }),
            rem == n - tq * d,
    ;
    let qi: i32 = tq as i32;
    let ri: i32 = rem as i32;
    assert((qi as u32) as i32 == qi && (ri as u32) as i32 == ri) by (bit_vector);
}

// ------------------------------------------------------------------ waiting

/// IntrWait. The first call discards the awaited flags from BIOS_IF if asked;
/// IME is forced on; when an awaited flag has arrived it is acknowledged and
/// the call completes, otherwise the CPU halts with the PC parked back on the
/// call so it runs again after the next interrupt.
pub open spec fn intr_waited(c: CpuView, discard: bool, flags: u16) -> CpuView {
    let f = flags & 0x3FFF;
    let c1 = if c.intrwait is None {
        let b = if discard {
            let b1 = clocked(c.bus);
            let cur = read16_value(b1, BIOS_IF);
            stored16(clocked(b1), BIOS_IF, cur & !f)
        } else {
            c.bus
        };
        CpuView { intrwait: Some(f), bus: b, ..c }
    } else {
        c
    };
    let b2 = stored16(clocked(c1.bus), 0x0400_0208, 1);
    let b3 = clocked(b2);
    let cur = read16_value(b3, BIOS_IF);
    if cur & f != 0 {
        CpuView { bus: stored16(clocked(b3), BIOS_IF, cur & !f), intrwait: None, ..c1 }
    } else {
        let c2 = CpuView { bus: BusView { halted: true, ..b3 }, ..c1 };
        flushed_cpu(with_reg(c2, 15, exec_addr_of(c2)))
    }
}

/// `x` rounded down to a multiple of `unit` (2 or 4).
#[verifier::spinoff_prover]
fn align_down(x: u32, unit: u32) -> (r: u32)
    requires
        unit == 2 || unit == 4,
    ensures
        r == x - x % unit,
{
    proof { lemma_u32_bits(x); }
    if unit == 4 { x & !3u32 } else { x & !1u32 }
}

/// The 21-bit unit count of a CpuSet control word.
#[verifier::spinoff_prover]
fn count_field(ctrl: u32) -> (n: u32)
    ensures
        n == ctrl & 0x1F_FFFF,
        n <= 0x1F_FFFF,
{
    proof { lemma_u32_bits(ctrl); }
    ctrl & 0x1F_FFFF
}

// ------------------------------------------------------------------ output

/// `data` stored byte by byte from `dst` upward.
pub open spec fn bytes_out(b: BusView, dst: u32, data: Seq<u8>) -> BusView
    decreases data.len(),
{
    if data.len() == 0 {
        b
    } else {
        bytes_out(stored8(clocked(b), dst, data[0]), dst.wrapping_add(1), data.drop_first())
    }
}

/// `data` stored as little-endian halfwords from `dst` upward (an odd last
/// byte is padded with zero): the way to reach VRAM, where byte stores
/// would be doubled.
pub open spec fn halves_out(b: BusView, dst: u32, data: Seq<u8>) -> BusView
    decreases data.len(),
{
    if data.len() == 0 {
        b
    } else {
        let hi: u8 = if data.len() >= 2 { data[1] } else { 0 };
        let rest = if data.len() >= 2 { data.subrange(2, data.len() as int) } else { Seq::empty() };
        halves_out(stored16(clocked(b), dst, (data[0] + hi * 256) as u16), dst.wrapping_add(2), rest)
    }
}

// ------------------------------------------------------------------ decoders

/// The 24-bit length in a compressed-data header word.
pub open spec fn header_size(b: BusView, src: u32) -> nat {
    (read32_value(clocked(b), src) / 256) as nat
}

/// Diff8 filter: `n` bytes read from `s` and summed into `acc`, each running
/// total appended to `out`.
pub open spec fn diff8_from(b: BusView, s: u32, acc: u8, n: nat, out: Seq<u8>) -> (BusView, Seq<u8>)
    decreases n,
{
    if n == 0 {
        (b, out)
    } else {
        let b1 = clocked(b);
        let a = acc.wrapping_add(read8_value(b1, s));
        diff8_from(b1, s.wrapping_add(1), a, (n - 1) as nat, out.push(a))
    }
}

/// Diff16 filter: `n` halfwords read from `s`, each running total stored
/// at `d` onward.
pub open spec fn diff16_from(b: BusView, s: u32, d: u32, acc: u16, n: nat) -> BusView
    decreases n,
{
    if n == 0 {
        b
    } else {
        let b1 = clocked(b);
        let a = acc.wrapping_add(read16_value(b1, s));
        diff16_from(stored16(clocked(b1), d, a), s.wrapping_add(2), d.wrapping_add(2), a, (n - 1) as nat)
    }
}

/// `n` bytes read from `s`, appended to `out`.
pub open spec fn literal_from(b: BusView, s: u32, n: nat, out: Seq<u8>) -> (BusView, u32, Seq<u8>)
    decreases n,
{
    if n == 0 {
        (b, s, out)
    } else {
        let b1 = clocked(b);
        literal_from(b1, s.wrapping_add(1), (n - 1) as nat, out.push(read8_value(b1, s)))
    }
}

/// Reading `n` literal bytes appends exactly `n`.
#[verifier::spinoff_prover]
pub proof fn lemma_literal_len(b: BusView, s: u32, n: nat, out: Seq<u8>)
    ensures
        literal_from(b, s, n, out).2.len() == out.len() + n,
    decreases n,
{
    if n > 0 {
        lemma_literal_len(clocked(b), s.wrapping_add(1), (n - 1) as nat, out.push(read8_value(clocked(b), s)));
    }
}

/// Run-length decoding until `size` bytes are out: a flag byte with bit 7
/// set repeats the next byte (flag & 0x7F) + 3 times, otherwise
/// (flag & 0x7F) + 1 literal bytes follow. The last run may overshoot.
pub open spec fn rl_from(b: BusView, s: u32, size: nat, out: Seq<u8>) -> (BusView, Seq<u8>)
    decreases if out.len() < size { size - out.len() } else { 0 },
{
    if out.len() >= size {
        (b, out)
    } else {
        let b1 = clocked(b);
        let f = read8_value(b1, s);
        if f & 0x80 != 0 {
            let b2 = clocked(b1);
            let v = read8_value(b2, s.wrapping_add(1));
            rl_from(b2, s.wrapping_add(2), size, out + Seq::new(((f & 0x7F) + 3) as nat, |_i: int| v))
        } else {
            let (b2, s2, o2) = literal_from(b1, s.wrapping_add(1), ((f & 0x7F) + 1) as nat, out);
            proof {
                lemma_literal_len(b1, s.wrapping_add(1), ((f & 0x7F) + 1) as nat, out);
            }
            rl_from(b2, s2, size, o2)
        }
    }
}

/// RLUnComp's output: the decoded bytes cut to the header's size.
pub open spec fn rl_decoded(b: BusView, src: u32) -> (BusView, Seq<u8>) {
    let size = header_size(b, src);
    let (b1, out) = rl_from(clocked(b), src.wrapping_add(4), size, Seq::empty());
    (b1, out.subrange(0, size as int))
}

/// `n` bytes appended, each a copy of the byte `disp` back.
pub open spec fn copied_back(out: Seq<u8>, disp: int, n: nat) -> Seq<u8>
    decreases n,
{
    if n == 0 {
        out
    } else {
        let o = copied_back(out, disp, (n - 1) as nat);
        o.push(o[o.len() - disp])
    }
}

/// Copying back appends exactly `n` bytes.
#[verifier::spinoff_prover]
pub proof fn lemma_copied_len(out: Seq<u8>, disp: int, n: nat)
    ensures
        copied_back(out, disp, n).len() == out.len() + n,
    decreases n,
{
    if n > 0 {
        lemma_copied_len(out, disp, (n - 1) as nat);
    }
}

/// LZ77 decoding until `size` bytes are out. Each flag byte governs the
/// next eight blocks, most significant bit first: a clear bit is a literal
/// byte, a set bit a back-reference of 3-18 bytes from 1-4096 back. `k`
/// blocks of `flags` remain. None when a reference reaches before the start.
pub open spec fn lz_from(b: BusView, s: u32, size: nat, out: Seq<u8>, flags: u8, k: nat) -> Option<
    (BusView, Seq<u8>),
>
    decreases (if out.len() < size { size - out.len() } else { 0 }), (if k == 0 { 9 } else { k }),
{
    if out.len() >= size {
        Some((b, out))
    } else if k == 0 {
        let b1 = clocked(b);
        lz_from(b1, s.wrapping_add(1), size, out, read8_value(b1, s), 8)
    } else if flags & (1u8 << ((k - 1) as u8)) == 0 {
        let b1 = clocked(b);
        lz_from(b1, s.wrapping_add(1), size, out.push(read8_value(b1, s)), flags, (k - 1) as nat)
    } else {
        let b1 = clocked(b);
        let x0 = read8_value(b1, s);
        let b2 = clocked(b1);
        let x1 = read8_value(b2, s.wrapping_add(1));
        let len = x0 / 16 + 3;
        let disp = (x0 % 16) * 256 + x1 + 1;
        if disp > out.len() {
            None
        } else {
            let n: nat = if len < size - out.len() { len as nat } else { (size - out.len()) as nat };
            proof {
                lemma_copied_len(out, disp, n);
            }
            lz_from(b2, s.wrapping_add(2), size, copied_back(out, disp, n), flags, (k - 1) as nat)
        }
    }
}

/// LZ77UnComp's output (see `lz_from`).
pub open spec fn lz_decoded(b: BusView, src: u32) -> Option<(BusView, Seq<u8>)> {
    lz_from(clocked(b), src.wrapping_add(4), header_size(b, src), Seq::empty(), 0, 0)
}

/// BitUnPack fields of one source byte from bit `bit` on: each `src_w`-bit
/// field (plus `offset` when non-zero, or always with `zero_too`) is packed
/// at `dst_w` bits into a word that is stored whenever it fills.
pub open spec fn fields_from(
    b: BusView,
    dst: u32,
    byte: u32,
    bit: u32,
    src_w: u32,
    dst_w: u32,
    offset: u32,
    zero_too: bool,
    out: u32,
    out_bits: u32,
) -> (BusView, u32, u32, u32)
    decreases (if bit < 8 { 8 - bit } else { 0 }),
{
    if bit >= 8 || src_w == 0 || src_w >= 32 {
        (b, dst, out, out_bits)
    } else {
        let v = (byte >> bit) & (((1u32 << src_w) - 1) as u32);
        let v2 = if v != 0 || zero_too { v.wrapping_add(offset) } else { v };
        let o = out | v2.wrapping_shl(out_bits);
        let ob = out_bits + dst_w;
        if ob >= 32 {
            fields_from(stored32(clocked(b), dst, o), dst.wrapping_add(4), byte, (bit + src_w) as u32, src_w, dst_w, offset, zero_too, 0, 0)
        } else {
            fields_from(b, dst, byte, (bit + src_w) as u32, src_w, dst_w, offset, zero_too, o, ob as u32)
        }
    }
}

/// BitUnPack over `n` source bytes from `src`.
pub open spec fn unpack_from(
    b: BusView,
    src: u32,
    dst: u32,
    n: nat,
    src_w: u32,
    dst_w: u32,
    offset: u32,
    zero_too: bool,
    out: u32,
    out_bits: u32,
) -> BusView
    decreases n,
{
    if n == 0 {
        b
    } else {
        let b1 = clocked(b);
        let byte = read8_value(b1, src) as u32;
        let (b2, d2, o2, ob2) = fields_from(b1, dst, byte, 0, src_w, dst_w, offset, zero_too, out, out_bits);
        unpack_from(b2, src.wrapping_add(1), d2, (n - 1) as nat, src_w, dst_w, offset, zero_too, o2, ob2)
    }
}

/// BitUnPack: r0 source, r1 destination, r2 the info block (length,
/// source and destination widths, offset with the zero-too flag in bit 31).
/// None when there is data but the source width is 0 or 32 and more, which
/// has no fields.
pub open spec fn bit_unpacked(b: BusView, src: u32, dst: u32, info: u32) -> Option<BusView> {
    let b1 = clocked(b);
    let len = read16_value(b1, info);
    let b2 = clocked(b1);
    let src_w = read8_value(b2, info.wrapping_add(2)) as u32;
    let b3 = clocked(b2);
    let dst_w = read8_value(b3, info.wrapping_add(3)) as u32;
    let b4 = clocked(b3);
    let off = read32_value(b4, info.wrapping_add(4));
    if len > 0 && (src_w == 0 || src_w >= 32) {
        None
    } else {
        Some(unpack_from(b4, src, dst, len as nat, src_w, dst_w, off & 0x7FFF_FFFF, off >> 31u32 != 0, 0, 0))
    }
}

/// `data` stored as little-endian words from `dst` upward, the last one
/// padded with zeros.
pub open spec fn words_out(b: BusView, dst: u32, data: Seq<u8>) -> BusView
    decreases data.len(),
{
    if data.len() == 0 {
        b
    } else {
        let at = |i: int| if i < data.len() { data[i] } else { 0u8 };
        let rest = if data.len() >= 4 { data.subrange(4, data.len() as int) } else { Seq::empty() };
        words_out(stored32(clocked(b), dst, le32(at(0), at(1), at(2), at(3))), dst.wrapping_add(4), rest)
    }
}

/// How many stream words Huffman decoding reads at most: the whole address
/// space. A stream that has not finished by then never would.
pub const HUFF_WORD_LIMIT: u32 = 0x4000_0000;

/// One decoded symbol: 8-bit symbols go straight out; 4-bit symbols pair
/// up, the first as the low nibble.
pub open spec fn huff_emit(sym8: bool, nibble: Option<u8>, out: Seq<u8>, sym: u8) -> (Option<u8>, Seq<u8>) {
    if sym8 {
        (nibble, out.push(sym))
    } else {
        match nibble {
            None => (Some(sym), out),
            Some(lo) => (None, out.push(lo | (sym << 4u8))),
        }
    }
}

/// The decoded symbols `syms` emitted one after another.
pub open spec fn huff_emitted(sym8: bool, nibble: Option<u8>, out: Seq<u8>, syms: Seq<u8>) -> (Option<u8>, Seq<u8>)
    decreases syms.len(),
{
    if syms.len() == 0 {
        (nibble, out)
    } else {
        let (n, o) = huff_emit(sym8, nibble, out, syms[0]);
        huff_emitted(sym8, n, o, syms.drop_first())
    }
}

/// 8-bit Huffman data: the decoded symbols are the output bytes, in order.
#[verifier::spinoff_prover]
pub proof fn lemma_huff_bytes(nibble: Option<u8>, out: Seq<u8>, syms: Seq<u8>)
    ensures
        huff_emitted(true, nibble, out, syms) == (nibble, out + syms),
    decreases syms.len(),
{
    if syms.len() > 0 {
        lemma_huff_bytes(nibble, out.push(syms[0]), syms.drop_first());
        assert(out.push(syms[0]) + syms.drop_first() =~= out + syms);
    }
}

/// 4-bit Huffman data: the decoded symbols pair up into bytes, the earlier
/// symbol of each pair in the low nibble and the later in the high nibble;
/// an odd last symbol waits for its partner.
#[verifier::spinoff_prover]
pub proof fn lemma_huff_nibbles(out: Seq<u8>, syms: Seq<u8>)
    requires
        forall|i: int| 0 <= i < syms.len() ==> syms[i] < 16,
    ensures
        huff_emitted(false, None, out, syms).1.len() == out.len() + syms.len() / 2,
        forall|i: int| 0 <= i < out.len() ==> huff_emitted(false, None, out, syms).1[i] == out[i],
        forall|k: int|
            0 <= k < syms.len() / 2 ==> {
                let byte = #[trigger] huff_emitted(false, None, out, syms).1[out.len() + k];
                &&& byte % 16 == syms[2 * k]
                &&& byte / 16 == syms[2 * k + 1]
            },
        huff_emitted(false, None, out, syms).0 == if syms.len() % 2 == 1 {
            Some(syms[syms.len() - 1])
        } else {
            None
        },
    decreases syms.len(),
{
    if syms.len() == 1 {
        assert(huff_emitted(false, Some(syms[0]), out, syms.drop_first()) == (Some(syms[0]), out));
    } else if syms.len() >= 2 {
        let lo = syms[0];
        let hi = syms[1];
        let x: u8 = lo | (hi << 4u8);
        assert(x % 16 == lo && x / 16 == hi) by (bit_vector)
            requires
                x == lo | (hi << 4u8),
                lo < 16,
                hi < 16,
        ;
        let rest = syms.subrange(2, syms.len() as int);
        assert(syms.drop_first().drop_first() =~= rest);
        assert(huff_emitted(false, Some(lo), out, syms.drop_first()) == huff_emitted(
            false,
            None,
            out.push(x),
            rest,
        ));
        lemma_huff_nibbles(out.push(x), rest);
        let r = huff_emitted(false, None, out, syms).1;
        assert forall|k: int| 0 <= k < syms.len() / 2 implies {
            let byte = #[trigger] r[out.len() + k];
            &&& byte % 16 == syms[2 * k]
            &&& byte / 16 == syms[2 * k + 1]
        } by {
            if k == 0 {
                assert(r[out.len() as int] == out.push(x)[out.len() as int]);
            } else {
                let j = k - 1;
                assert(r[out.push(x).len() + j] == r[out.len() + k]);
                assert(rest[2 * j] == syms[2 * k] && rest[2 * j + 1] == syms[2 * k + 1]);
            }
        }
        assert forall|i: int| 0 <= i < out.len() implies r[i] == out[i] by {
            assert(r[i] == out.push(x)[i]);
        }
    }
}

/// The Huffman walk over bits `i - 1` down to 0 of `word`: each bit picks
/// a child of `node`; a child flagged as a leaf yields its symbol and the
/// walk restarts at the root. Stops once `size` bytes are out.
pub open spec fn huff_bits(
    b: BusView,
    word: u32,
    i: int,
    node: u32,
    root: u32,
    sym8: bool,
    nibble: Option<u8>,
    out: Seq<u8>,
    size: nat,
) -> (BusView, u32, Option<u8>, Seq<u8>)
    decreases i,
{
    if i <= 0 || out.len() >= size {
        (b, node, nibble, out)
    } else {
        let b1 = clocked(b);
        let nv = read8_value(b1, node) as u32;
        let bit = (word >> ((i - 1) as u32)) & 1;
        let next = (node & !1u32).wrapping_add((((nv & 0x3F) + 1) * 2) as u32).wrapping_add(bit);
        let leaf = if bit == 0 { nv & 0x80 != 0 } else { nv & 0x40 != 0 };
        if !leaf {
            huff_bits(b1, word, i - 1, next, root, sym8, nibble, out, size)
        } else {
            let b2 = clocked(b1);
            let (nib, o) = huff_emit(sym8, nibble, out, read8_value(b2, next));
            huff_bits(b2, word, i - 1, root, root, sym8, nib, o, size)
        }
    }
}

/// The Huffman stream consumed word by word, at most `fuel` words.
pub open spec fn huff_words(
    b: BusView,
    stream: u32,
    node: u32,
    root: u32,
    sym8: bool,
    nibble: Option<u8>,
    out: Seq<u8>,
    size: nat,
    fuel: nat,
) -> Option<(BusView, Seq<u8>)>
    decreases fuel,
{
    if out.len() >= size {
        Some((b, out))
    } else if fuel == 0 {
        None
    } else {
        let b1 = clocked(b);
        let word = read32_value(b1, stream);
        let (b2, n2, nib2, o2) = huff_bits(b1, word, 32, node, root, sym8, nibble, out, size);
        huff_words(b2, stream.wrapping_add(4), n2, root, sym8, nib2, o2, size, (fuel - 1) as nat)
    }
}

/// HuffUnComp: header word (symbol width in bits 0-3, size above), the
/// tree (its size byte, then nodes), then the bit stream; the output is
/// stored as words at r1. None when the stream does not finish within the
/// limit.
pub open spec fn huff_decoded(b: BusView, src: u32, dst: u32) -> Option<BusView> {
    let b1 = clocked(b);
    let header = read32_value(b1, src);
    let tree_base = src.wrapping_add(4);
    let b2 = clocked(b1);
    let tree_size = read8_value(b2, tree_base) as u32;
    let stream = tree_base.wrapping_add(((tree_size + 1) * 2) as u32);
    let root = tree_base.wrapping_add(1);
    match huff_words(b2, stream, root, root, header & 0xF == 8, None, Seq::empty(), (header / 256) as nat, HUFF_WORD_LIMIT as nat) {
        Some((b3, out)) => Some(words_out(b3, dst, out)),
        None => None,
    }
}

/// Diff8bitUnFilter's result: the running sums, as bytes or (for VRAM) as
/// halfwords from r1.
pub open spec fn diff8_done(c: CpuView, vram: bool) -> CpuView {
    let size = header_size(c.bus, c.regs.r[0]);
    let (b1, out) = diff8_from(clocked(c.bus), c.regs.r[0].wrapping_add(4), 0, size, Seq::empty());
    CpuView {
        bus: if vram {
            halves_out(b1, (c.regs.r[1] - c.regs.r[1] % 2) as u32, out)
        } else {
            bytes_out(b1, c.regs.r[1], out)
        },
        ..c
    }
}

/// Diff16bitUnFilter's result.
pub open spec fn diff16_done(c: CpuView) -> CpuView {
    let size = header_size(c.bus, c.regs.r[0]);
    CpuView {
        bus: diff16_from(clocked(c.bus), c.regs.r[0].wrapping_add(4), (c.regs.r[1] - c.regs.r[1] % 2) as u32, 0, size / 2),
        ..c
    }
}

/// The decoded bytes stored from r1: bytewise, or as halfwords for VRAM.
pub open spec fn decoded_out(c: CpuView, b: BusView, out: Seq<u8>, vram: bool) -> CpuView {
    CpuView {
        bus: if vram { halves_out(b, (c.regs.r[1] - c.regs.r[1] % 2) as u32, out) } else { bytes_out(b, c.regs.r[1], out) },
        ..c
    }
}

/// The floor of the square root.
pub open spec fn is_floor_sqrt(n: u32, r: u32) -> bool {
    r * r <= n < (r + 1) * (r + 1)
}

pub open spec fn sqrt_floor(n: u32) -> u32 {
    choose|r: u32| is_floor_sqrt(n, r)
}

/// The floor square root is unique.
#[verifier::spinoff_prover]
pub proof fn lemma_floor_sqrt_unique(n: u32, a: u32, b: u32)
    requires
        is_floor_sqrt(n, a),
        is_floor_sqrt(n, b),
    ensures
        a == b,
{
    if a < b {
        assert((a + 1) * (a + 1) <= b * b) by (nonlinear_arith)
            requires a + 1 <= b;
    } else if b < a {
        assert((b + 1) * (b + 1) <= a * a) by (nonlinear_arith)
            requires b + 1 <= a;
    }
}

/// A system call of the software BIOS: the state it leaves and what it
/// leaves for the host, or why it cannot run.
pub open spec fn bios_called(c: CpuView, f: u32) -> Result<(CpuView, Outcome), ExecError> {
    let r0 = c.regs.r[0];
    let r1 = c.regs.r[1];
    let r2 = c.regs.r[2];
    let addr = exec_addr_of(c);
    if f == 0x00 {
        Ok((soft_reset_done(c), Outcome::Done))
    } else if f == 0x01 {
        Ok((CpuView { bus: ram_reset(c.bus, r0), ..c }, Outcome::Done))
    } else if f == 0x02 || f == 0x03 {
        // Halt / Stop
        Ok((CpuView { bus: BusView { halted: true, ..c.bus }, ..c }, Outcome::Done))
    } else if f == 0x04 {
        Ok((intr_waited(c, r0 != 0, r1 as u16), Outcome::Done))
    } else if f == 0x05 {
        // VBlankIntrWait
        Ok((intr_waited(c, true, 1), Outcome::Done))
    } else if f == 0x06 || f == 0x07 {
        // Div, and DivArm with the operands swapped
        let n = if f == 0x06 { r0 as i32 } else { r1 as i32 };
        let d = if f == 0x06 { r1 as i32 } else { r0 as i32 };
        if d == 0 {
            Err(ExecError::DivideByZero { addr })
        } else {
            Ok((divided(c, n, d), Outcome::Done))
        }
    } else if f == 0x08 {
        Ok((with_reg(c, 0, sqrt_floor(r0)), Outcome::Done))
    } else if f == 0x09 {
        Ok((with_reg(c, 0, arctan_value(r0 as i32) as u32), Outcome::Done))
    } else if f == 0x0A {
        if r0 as i32 == i32::MIN || r1 as i32 == i32::MIN {
            Err(ExecError::BadArgument { function: f, addr })
        } else {
            Ok((with_reg(c, 0, arctan2_value(r0 as i32, r1 as i32)), Outcome::Done))
        }
    } else if f == 0x0B {
        Ok((CpuView { bus: cpu_set_done(c.bus, r0, r1, r2), ..c }, Outcome::Done))
    } else if f == 0x0C {
        Ok((CpuView { bus: cpu_fast_set_done(c.bus, r0, r1, r2), ..c }, Outcome::Done))
    } else if f == 0x0D {
        // GetBiosChecksum
        Ok((with_reg(c, 0, 0xBAAE_187F), Outcome::Done))
    } else if f == 0x10 {
        match bit_unpacked(c.bus, r0, r1, r2) {
            Some(b) => Ok((CpuView { bus: b, ..c }, Outcome::Done)),
            None => Err(ExecError::BadArgument { function: f, addr }),
        }
    } else if f == 0x11 || f == 0x12 {
        match lz_decoded(c.bus, r0) {
            Some((b, out)) => Ok((decoded_out(c, b, out, f == 0x12), Outcome::Done)),
            None => Err(ExecError::BadArgument { function: f, addr }),
        }
    } else if f == 0x13 {
        match huff_decoded(c.bus, r0, r1) {
            Some(b) => Ok((CpuView { bus: b, ..c }, Outcome::Done)),
            None => Err(ExecError::BadArgument { function: f, addr }),
        }
    } else if f == 0x14 || f == 0x15 {
        let (b, out) = rl_decoded(c.bus, r0);
        Ok((decoded_out(c, b, out, f == 0x15), Outcome::Done))
    } else if f == 0x16 || f == 0x17 {
        Ok((diff8_done(c, f == 0x17), Outcome::Done))
    } else if f == 0x18 {
        Ok((diff16_done(c), Outcome::Done))
    } else if f == 0x19 || (0x1A <= f <= 0x1E) || (0x20 <= f <= 0x24) || f == 0x28 || f == 0x29 {
        // SoundBias and the BIOS sound driver: games carry their own
        Ok((c, Outcome::Done))
    } else if f == 0x1F {
        // MidiKey2Freq: r0 points at the WaveData, whose word at +4 is the base
        let b1 = clocked(c.bus);
        Ok(
            (
                CpuView { bus: b1, ..c },
                Outcome::KeyToFreq { base: read32_value(b1, r0.wrapping_add(4)), key: r1, fine: r2 },
            ),
        )
    } else if f == 0x25 {
        // MultiBoot: report failure
        Ok((with_reg(c, 0, 1), Outcome::Done))
    } else {
        Err(ExecError::UnknownSysCall { function: f, addr })
    }
}

impl Cpu {
    /// Stores zero words over [lo, hi).
    #[verifier::spinoff_prover]
    fn wipe(&mut self, lo: u32, hi: u32)
        requires
            cpu_wf(old(self)@),
            lo <= hi,
            (hi - lo) % 4 == 0,
            old(self)@.bus.cycles + (hi - lo) / 4 < 0x8000_0000_0000_0000,
        ensures
            cpu_wf(final(self)@),
            final(self)@ == (CpuView { bus: zeroed_from(old(self)@.bus, lo, ((hi - lo) / 4) as nat), ..old(self)@ }),
            final(self)@.bus.cycles == old(self)@.bus.cycles + (hi - lo) / 4,
    {
        let n = (hi - lo) / 4;
        let ghost b0 = self@.bus;
        let mut i: u32 = 0;
        while i < n
            invariant
                i <= n,
                n == (hi - lo) / 4,
                lo <= hi,
                cpu_wf(self@),
                self@ == (CpuView { bus: zeroed_from(b0, lo, i as nat), ..old(self)@ }),
                self@.bus.cycles == b0.cycles + i,
                b0.cycles + n < 0x8000_0000_0000_0000,
            decreases n - i,
        {
            self.bus.write32(lo + 4 * i, 0);
            i = i + 1;
        }
    }

    /// RegisterRamReset (r0 selects the regions).
    #[verifier::spinoff_prover]
    pub fn register_ram_reset(&mut self)
        requires
            cpu_wf(old(self)@),
            old(self)@.bus.cycles < 0x4000_0000_0000_0000,
        ensures
            cpu_wf(final(self)@),
            final(self)@ == (CpuView { bus: ram_reset(old(self)@.bus, old(self)@.regs.r[0]), ..old(self)@ }),
    {
        let f = self.regs.get(0);
        self.reset_memories(f);
        self.reset_registers(f);
        self.bus.write16(0x0400_0000, 0x0080);  // always leaves forced blank
    }

    #[verifier::spinoff_prover]
    fn reset_memories(&mut self, f: u32)
        requires
            cpu_wf(old(self)@),
            old(self)@.bus.cycles < 0x4000_0000_0000_0000,
        ensures
            cpu_wf(final(self)@),
            final(self)@ == (CpuView { bus: memories_reset(old(self)@.bus, f), ..old(self)@ }),
            final(self)@.bus.cycles <= old(self)@.bus.cycles + 0x2_0000,
    {
        if f & 0x01 != 0 {
            self.wipe(0x0200_0000, 0x0204_0000);
        }
        if f & 0x02 != 0 {
            self.wipe(0x0300_0000, 0x0300_7E00);
        }
        if f & 0x04 != 0 {
            self.wipe(0x0500_0000, 0x0500_0400);
        }
        if f & 0x08 != 0 {
            self.wipe(0x0600_0000, 0x0601_8000);
        }
        if f & 0x10 != 0 {
            self.wipe(0x0700_0000, 0x0700_0400);
        }
    }

    #[verifier::spinoff_prover]
    fn reset_registers(&mut self, f: u32)
        requires
            cpu_wf(old(self)@),
            old(self)@.bus.cycles < 0x4000_0000_0000_0000 + 0x2_0000,
        ensures
            cpu_wf(final(self)@),
            final(self)@ == (CpuView { bus: registers_reset(old(self)@.bus, f), ..old(self)@ }),
            final(self)@.bus.cycles <= old(self)@.bus.cycles + 0x100,
    {
        if f & 0x20 != 0 {
            self.wipe(0x0400_0120, 0x0400_0130);
            self.wipe(0x0400_0134, 0x0400_015C);
        }
        if f & 0x40 != 0 {
            self.wipe(0x0400_0060, 0x0400_00B0);
        }
        if f & 0x80 != 0 {
            self.wipe(0x0400_0004, 0x0400_0060);
            self.wipe(0x0400_00B0, 0x0400_0110);
            self.wipe(0x0400_0200, 0x0400_020C);
        }
    }

    /// SoftReset (see `soft_reset_done`).
    #[verifier::spinoff_prover]
    pub fn soft_reset(&mut self)
        requires
            cpu_wf(old(self)@),
            old(self)@.bus.cycles < 0x4000_0000_0000_0000,
        ensures
            cpu_wf(final(self)@),
            final(self)@ == soft_reset_done(old(self)@),
    {
        let flag = self.bus.read8(0x0300_7FFA);
        self.wipe(0x0300_7E00, 0x0300_8000);
        self.regs = Registers::new_post_bios();
        let entry: u32 = if flag == 0 { 0x0800_0000 } else { 0x0200_0000 };
        self.regs.set(15, entry);
        self.flush();
    }

    /// CpuSet (see `cpu_set_done`).
    #[verifier::spinoff_prover]
    pub fn cpu_set(&mut self)
        requires
            cpu_wf(old(self)@),
            old(self)@.bus.cycles < 0x4000_0000_0000_0000,
        ensures
            cpu_wf(final(self)@),
            final(self)@ == (CpuView {
                bus: cpu_set_done(old(self)@.bus, old(self)@.regs.r[0], old(self)@.regs.r[1], old(self)@.regs.r[2]),
                ..old(self)@
            }),
    {
        let ctrl = self.regs.get(2);
        let unit: u32 = if ctrl & 0x400_0000 != 0 { 4 } else { 2 };
        let src = align_down(self.regs.get(0), unit);
        let dst = align_down(self.regs.get(1), unit);
        self.copy_units(src, dst, ctrl & 0x100_0000 != 0, unit, count_field(ctrl));
    }

    /// CpuFastSet (see `cpu_fast_set_done`).
    #[verifier::spinoff_prover]
    pub fn cpu_fast_set(&mut self)
        requires
            cpu_wf(old(self)@),
            old(self)@.bus.cycles < 0x4000_0000_0000_0000,
        ensures
            cpu_wf(final(self)@),
            final(self)@ == (CpuView {
                bus: cpu_fast_set_done(old(self)@.bus, old(self)@.regs.r[0], old(self)@.regs.r[1], old(self)@.regs.r[2]),
                ..old(self)@
            }),
    {
        let ctrl = self.regs.get(2);
        let src = align_down(self.regs.get(0), 4);
        let dst = align_down(self.regs.get(1), 4);
        let count = (count_field(ctrl) + 7) / 8 * 8;
        self.copy_units(src, dst, ctrl & 0x100_0000 != 0, 4, count);
    }

    #[verifier::spinoff_prover]
    fn copy_units(&mut self, src: u32, dst: u32, fill: bool, unit: u32, n: u32)
        requires
            cpu_wf(old(self)@),
            old(self)@.bus.cycles < 0x4000_0000_0000_0000,
            n <= 0x20_0000,
        ensures
            cpu_wf(final(self)@),
            final(self)@ == (CpuView {
                bus: set_from(old(self)@.bus, src, dst, 0, fill, unit, 0, n as nat),
                ..old(self)@
            }),
    {
        let ghost target = set_from(self@.bus, src, dst, 0, fill, unit, 0, n as nat);
        let ghost c0 = self@.bus.cycles;
        let mut src = src;
        let mut dst = dst;
        let mut value: u32 = 0;
        let mut i: u32 = 0;
        while i < n
            invariant
                i <= n <= 0x20_0000,
                cpu_wf(self@),
                self@.bus.cycles <= c0 + 2 * i,
                c0 < 0x4000_0000_0000_0000,
                self@ == (CpuView { bus: self@.bus, ..old(self)@ }),
                set_from(self@.bus, src, dst, value, fill, unit, i as nat, n as nat) == target,
            decreases n - i,
        {
            if !fill || i == 0 {
                value = if unit == 4 { self.bus.read32(src) } else { self.bus.read16(src) as u32 };
                if !fill {
                    src = src.wrapping_add(unit);
                }
            }
            if unit == 4 {
                self.bus.write32(dst, value);
            } else {
                self.bus.write16(dst, value as u16);
            }
            dst = dst.wrapping_add(unit);
            i = i + 1;
        }
    }

    /// Div (r0 = n, r1 = d; DivArm passes them swapped).
    #[verifier::spinoff_prover]
    pub fn div(&mut self, n: i32, d: i32)
        requires
            cpu_wf(old(self)@),
            d != 0,
        ensures
            cpu_wf(final(self)@),
            final(self)@ == divided(old(self)@, n, d),
    {
        let un: i64 = if n < 0 { -(n as i64) } else { n as i64 };
        let ud: i64 = if d < 0 { -(d as i64) } else { d as i64 };
        let uq = un / ud;
        assert(0 <= uq <= un) by (nonlinear_arith)
            requires uq == un / ud, ud >= 1, un >= 0;
        let tq: i64 = if (n < 0) != (d < 0) { -uq } else { uq };
        assert(-0x8000_0000 <= tq * (d as i64) <= 0x8000_0000) by (nonlinear_arith)
            requires
                uq == un / ud,
                ud >= 1,
                0 <= un <= 0x8000_0000,
                tq == uq || tq == -uq,
                d == ud || d == -ud,
        {
            assert(uq * ud <= un);
        }
        let r = (n as i64 - tq * (d as i64)) as i32;
        let q: i32 = if tq > i32::MAX as i64 { i32::MIN } else { tq as i32 };
        let aq: u32 = if q < 0 { (-(q as i64)) as u32 } else { q as u32 };
        self.regs.set(0, q as u32);
        self.regs.set(1, r as u32);
        self.regs.set(3, aq);
    }

    /// IntrWait (see `intr_waited`).
    #[verifier::spinoff_prover]
    pub fn intr_wait(&mut self, discard: bool, flags: u16)
        requires
            cpu_wf(old(self)@),
            old(self)@.bus.cycles < 0x4000_0000_0000_0000,
        ensures
            cpu_wf(final(self)@),
            final(self)@ == intr_waited(old(self)@, discard, flags),
    {
        let flags = flags & 0x3FFF;
        if self.intrwait.is_none() {
            self.intrwait = Some(flags);
            if discard {
                let cur = self.bus.read16(BIOS_IF);
                self.bus.write16(BIOS_IF, cur & !flags);
            }
        }
        self.bus.write16(0x0400_0208, 1);  // IntrWait forces IME on
        let cur = self.bus.read16(BIOS_IF);
        if cur & flags != 0 {
            self.bus.write16(BIOS_IF, cur & !flags);
            self.intrwait = None;
            return;  // satisfied: fall through past the call
        }
        self.bus.halted = true;
        let pc = self.exec_addr();
        self.regs.set(15, pc);
        self.flush();
    }

    /// Stores `data` byte by byte from r1.
    #[verifier::spinoff_prover]
    pub fn write_out_bytes(&mut self, data: &Vec<u8>)
        requires
            cpu_wf(old(self)@),
            old(self)@.bus.cycles + data.len() < 0x8000_0000_0000_0000,
        ensures
            cpu_wf(final(self)@),
            final(self)@ == (CpuView { bus: bytes_out(old(self)@.bus, old(self)@.regs.r[1], data@), ..old(self)@ }),
            final(self)@.bus.cycles == old(self)@.bus.cycles + data.len(),
    {
        let ghost target = bytes_out(self@.bus, self@.regs.r[1], data@);
        let ghost c0 = self@.bus.cycles;
        let mut dst = self.regs.get(1);
        let mut i: usize = 0;
        assert(data@.subrange(0, data.len() as int) =~= data@);
        while i < data.len()
            invariant
                i <= data.len(),
                cpu_wf(self@),
                self@ == (CpuView { bus: self@.bus, ..old(self)@ }),
                self@.bus.cycles == c0 + i,
                c0 + data.len() < 0x8000_0000_0000_0000,
                bytes_out(self@.bus, dst, data@.subrange(i as int, data.len() as int)) == target,
            decreases data.len() - i,
        {
            assert(data@.subrange(i as int, data.len() as int).drop_first() =~= data@.subrange(
                i + 1,
                data.len() as int,
            ));
            self.bus.write8(dst, data[i]);
            dst = dst.wrapping_add(1);
            i = i + 1;
        }
        assert(data@.subrange(i as int, data.len() as int) =~= Seq::<u8>::empty());
    }

    /// Stores `data` as halfwords from r1 (aligned down); an odd last byte
    /// is padded with zero.
    #[verifier::spinoff_prover]
    pub fn write_out_halfwords(&mut self, data: &Vec<u8>)
        requires
            cpu_wf(old(self)@),
            old(self)@.bus.cycles + data.len() < 0x8000_0000_0000_0000,
        ensures
            cpu_wf(final(self)@),
            final(self)@ == (CpuView {
                bus: halves_out(old(self)@.bus, (old(self)@.regs.r[1] - old(self)@.regs.r[1] % 2) as u32, data@),
                ..old(self)@
            }),
            final(self)@.bus.cycles <= old(self)@.bus.cycles + data.len(),
    {
        let mut dst = align_down(self.regs.get(1), 2);
        let ghost target = halves_out(self@.bus, dst, data@);
        let ghost c0 = self@.bus.cycles;
        let mut i: usize = 0;
        assert(data@.subrange(0, data.len() as int) =~= data@);
        while i < data.len()
            invariant
                i <= data.len(),
                cpu_wf(self@),
                self@ == (CpuView { bus: self@.bus, ..old(self)@ }),
                self@.bus.cycles <= c0 + i,
                c0 + data.len() < 0x8000_0000_0000_0000,
                halves_out(self@.bus, dst, data@.subrange(i as int, data.len() as int)) == target,
            decreases data.len() - i,
        {
            let lo = data[i];
            let hi: u8 = if i + 1 < data.len() { data[i + 1] } else { 0 };
            let ghost rest = data@.subrange(i as int, data.len() as int);
            let ghost b_before = self@.bus;
            let ghost d_before = dst;
            proof {
                if i + 1 < data.len() {
                    assert(rest.subrange(2, rest.len() as int) =~= data@.subrange(i + 2, data.len() as int));
                } else {
                    assert(data@.subrange(data.len() as int, data.len() as int) =~= Seq::<u8>::empty());
                }
            }
            let v: u16 = (lo as u16) + (hi as u16) * 256;
            self.bus.write16(dst, v);
            dst = dst.wrapping_add(2);
            i = if data.len() - i >= 2 { i + 2 } else { data.len() };
            assert(halves_out(b_before, d_before, rest) == halves_out(
                self@.bus,
                dst,
                data@.subrange(i as int, data.len() as int),
            ));
        }
        assert(data@.subrange(i as int, data.len() as int) =~= Seq::<u8>::empty());
    }

    /// The 24-bit size from the header word at `src`.
    #[verifier::spinoff_prover]
    fn header_size(&mut self, src: u32) -> (n: usize)
        requires
            cpu_wf(old(self)@),
            old(self)@.bus.cycles < 0x4000_0000_0000_0000,
        ensures
            cpu_wf(final(self)@),
            final(self)@ == (CpuView { bus: clocked(old(self)@.bus), ..old(self)@ }),
            n == header_size(old(self)@.bus, src),
            n < 0x100_0000,
    {
        (self.bus.read32(src) / 256) as usize
    }

    /// Diff8bitUnFilter: the running sums of the header's size bytes, to
    /// VRAM-safe halfwords or to bytes.
    #[verifier::spinoff_prover]
    pub fn diff8_unfilter(&mut self, vram: bool)
        requires
            cpu_wf(old(self)@),
            old(self)@.bus.cycles < 0x4000_0000_0000_0000,
        ensures
            cpu_wf(final(self)@),
            final(self)@ == diff8_done(old(self)@, vram),
    {
        let src = self.regs.get(0);
        let size = self.header_size(src);
        let mut s = src.wrapping_add(4);
        let ghost c1 = self@;
        let ghost target = diff8_from(c1.bus, s, 0, size as nat, Seq::empty());
        let mut out: Vec<u8> = Vec::new();
        let mut acc: u8 = 0;
        let mut i: usize = 0;
        while i < size
            invariant
                i <= size < 0x100_0000,
                cpu_wf(self@),
                self@ == (CpuView { bus: self@.bus, ..c1 }),
                self@.bus.cycles == c1.bus.cycles + i,
                c1.bus.cycles < 0x4000_0000_0000_0001,
                out@.len() == i,
                diff8_from(self@.bus, s, acc, (size - i) as nat, out@) == target,
            decreases size - i,
        {
            acc = acc.wrapping_add(self.bus.read8(s));
            s = s.wrapping_add(1);
            out.push(acc);
            i = i + 1;
        }
        if vram {
            self.write_out_halfwords(&out);
        } else {
            self.write_out_bytes(&out);
        }
    }

    /// Diff16bitUnFilter: running sums of halfwords, stored as they go.
    #[verifier::spinoff_prover]
    pub fn diff16_unfilter(&mut self)
        requires
            cpu_wf(old(self)@),
            old(self)@.bus.cycles < 0x4000_0000_0000_0000,
        ensures
            cpu_wf(final(self)@),
            final(self)@ == diff16_done(old(self)@),
    {
        let src = self.regs.get(0);
        let size = self.header_size(src);
        let mut s = src.wrapping_add(4);
        let mut dst = align_down(self.regs.get(1), 2);
        let ghost c1 = self@;
        let ghost target = diff16_from(c1.bus, s, dst, 0, (size / 2) as nat);
        let mut acc: u16 = 0;
        let mut i: usize = 0;
        while i < size / 2
            invariant
                i <= size / 2,
                size < 0x100_0000,
                cpu_wf(self@),
                self@ == (CpuView { bus: self@.bus, ..c1 }),
                self@.bus.cycles == c1.bus.cycles + 2 * i,
                c1.bus.cycles < 0x4000_0000_0000_0001,
                diff16_from(self@.bus, s, dst, acc, (size / 2 - i) as nat) == target,
            decreases size / 2 - i,
        {
            acc = acc.wrapping_add(self.bus.read16(s));
            s = s.wrapping_add(2);
            self.bus.write16(dst, acc);
            dst = dst.wrapping_add(2);
            i = i + 1;
        }
    }

    /// RLUnComp: the decoded bytes (see `rl_decoded`).
    #[verifier::spinoff_prover]
    pub fn rl_decompress(&mut self) -> (out: Vec<u8>)
        requires
            cpu_wf(old(self)@),
            old(self)@.bus.cycles < 0x4000_0000_0000_0000,
        ensures
            cpu_wf(final(self)@),
            (final(self)@, out@) == ({
                let (b, o) = rl_decoded(old(self)@.bus, old(self)@.regs.r[0]);
                (CpuView { bus: b, ..old(self)@ }, o)
            }),
            final(self)@.bus.cycles <= old(self)@.bus.cycles + 0x300_0000,
            out.len() < 0x200_0000,
    {
        let mut src = self.regs.get(0);
        let size = self.header_size(src);
        src = src.wrapping_add(4);
        let ghost c1 = self@;
        let ghost target = rl_from(c1.bus, src, size as nat, Seq::empty());
        let mut out: Vec<u8> = Vec::new();
        while out.len() < size
            invariant
                size < 0x100_0000,
                out.len() <= size + 130,
                cpu_wf(self@),
                self@ == (CpuView { bus: self@.bus, ..c1 }),
                self@.bus.cycles <= c1.bus.cycles + 2 * out.len(),
                c1.bus.cycles < 0x4000_0000_0000_0001,
                rl_from(self@.bus, src, size as nat, out@) == target,
            decreases (if out.len() < size { size - out.len() } else { 0 }),
        {
            let ghost b_before = self@.bus;
            let ghost s_before = src;
            let ghost o_before = out@;
            let f = self.bus.read8(src) as usize;
            src = src.wrapping_add(1);
            proof { crate::bits::lemma_u8_bits(f as u8); }
            if f & 0x80 != 0 {
                let v = self.bus.read8(src);
                src = src.wrapping_add(1);
                let n = (f & 0x7F) + 3;
                let ghost before = out@;
                let mut j: usize = 0;
                while j < n
                    invariant
                        j <= n <= 130,
                        out@ == before + Seq::new(j as nat, |_i: int| v),
                    decreases n - j,
                {
                    out.push(v);
                    j = j + 1;
                    assert(out@ =~= before + Seq::new(j as nat, |_i: int| v));
                }
            } else {
                let n = (f & 0x7F) + 1;
                let mut j: usize = 0;
                let ghost lit_target = literal_from(self@.bus, src, n as nat, out@);
                let ghost o0 = out.len();
                let ghost cyc0 = self@.bus.cycles;
                while j < n
                    invariant
                        1 <= n <= 128,
                        j <= n,
                        o0 < size < 0x100_0000,
                        out.len() == o0 + j,
                        cpu_wf(self@),
                        self@ == (CpuView { bus: self@.bus, ..c1 }),
                        cyc0 <= c1.bus.cycles + 2 * o0 + 1,
                        self@.bus.cycles == cyc0 + j,
                        c1.bus.cycles < 0x4000_0000_0000_0001,
                        literal_from(self@.bus, src, (n - j) as nat, out@) == lit_target,
                    decreases n - j,
                {
                    out.push(self.bus.read8(src));
                    src = src.wrapping_add(1);
                    j = j + 1;
                }
            }
            assert(rl_from(b_before, s_before, size as nat, o_before) == rl_from(self@.bus, src, size as nat, out@));
        }
        out.truncate(size);
        out
    }

    /// LZ77UnComp: the decoded bytes, or None when a back-reference reaches
    /// before the start of the output.
    #[verifier::spinoff_prover]
    pub fn lz77_decompress(&mut self) -> (out: Option<Vec<u8>>)
        requires
            cpu_wf(old(self)@),
            old(self)@.bus.cycles < 0x4000_0000_0000_0000,
        ensures
            cpu_wf(final(self)@),
            final(self)@ == (CpuView { bus: final(self)@.bus, ..old(self)@ }),
            final(self)@.bus.cycles <= old(self)@.bus.cycles + 0x800_0000,
            match lz_decoded(old(self)@.bus, old(self)@.regs.r[0]) {
                Some((b, o)) => out matches Some(v) && v@ == o && final(self)@.bus == b,
                None => out is None,
            },
            out matches Some(v) ==> v.len() < 0x200_0000,
    {
        let mut src = self.regs.get(0);
        let size = self.header_size(src);
        src = src.wrapping_add(4);
        let ghost c1 = self@;
        let ghost target = lz_from(c1.bus, src, size as nat, Seq::empty(), 0, 0);
        let mut out: Vec<u8> = Vec::new();
        let mut flags: u8 = 0;
        let mut k: u8 = 0;
        let ghost mut it: int = 0;
        while out.len() < size
            invariant
                size < 0x100_0000,
                out.len() <= size + 18,
                k <= 8,
                c1 == (CpuView { bus: c1.bus, ..old(self)@ }),
                c1.bus.cycles == old(self)@.bus.cycles + 1,
                target == lz_decoded(old(self)@.bus, old(self)@.regs.r[0]),
                0 <= it <= 2 * out.len() + 1,
                k == 0 ==> it <= 2 * out.len(),
                cpu_wf(self@),
                self@ == (CpuView { bus: self@.bus, ..c1 }),
                self@.bus.cycles <= c1.bus.cycles + 2 * it,
                c1.bus.cycles < 0x4000_0000_0000_0001,
                lz_from(self@.bus, src, size as nat, out@, flags, k as nat) == target,
            decreases (if out.len() < size { size - out.len() } else { 0 }), (if k == 0 { 9 } else { k as int }),
        {
            let ghost b_before = self@.bus;
            let ghost s_before = src;
            let ghost o_before = out@;
            let ghost k_before = k;
            let ghost f_before = flags;
            proof { it = it + 1; }
            if k == 0 {
                flags = self.bus.read8(src);
                src = src.wrapping_add(1);
                k = 8;
            } else {
                k = k - 1;
                if flags & (1u8 << k) == 0 {
                    out.push(self.bus.read8(src));
                    src = src.wrapping_add(1);
                } else {
                    let x0 = self.bus.read8(src) as usize;
                    let x1 = self.bus.read8(src.wrapping_add(1)) as usize;
                    src = src.wrapping_add(2);
                    let len = x0 / 16 + 3;
                    let disp = (x0 % 16) * 256 + x1 + 1;
                    if disp > out.len() {
                        assert(lz_from(b_before, s_before, size as nat, o_before, f_before, k_before as nat) is None);
                        return None;
                    }
                    let n = if len < size - out.len() { len } else { size - out.len() };
                    let ghost o0 = out@;
                    let mut j: usize = 0;
                    while j < n
                        invariant
                            j <= n <= 18,
                            1 <= disp <= o0.len(),
                            out@ == copied_back(o0, disp as int, j as nat),
                            out@.len() == o0.len() + j,
                        decreases n - j,
                    {
                        proof { lemma_copied_len(o0, disp as int, j as nat); }
                        let v = out[out.len() - disp];
                        out.push(v);
                        j = j + 1;
                    }
                    proof { lemma_copied_len(o0, disp as int, n as nat); }
                }
            }
            assert(lz_from(b_before, s_before, size as nat, o_before, f_before, k_before as nat) == lz_from(self@.bus, src, size as nat, out@, flags, k as nat));
        }
        Some(out)
    }

    /// BitUnPack (see `bit_unpacked`); false when the source width admits
    /// no fields.
    #[verifier::spinoff_prover]
    pub fn bit_unpack(&mut self) -> (ok: bool)
        requires
            cpu_wf(old(self)@),
            old(self)@.bus.cycles < 0x4000_0000_0000_0000,
        ensures
            cpu_wf(final(self)@),
            final(self)@ == (CpuView { bus: final(self)@.bus, ..old(self)@ }),
            match bit_unpacked(old(self)@.bus, old(self)@.regs.r[0], old(self)@.regs.r[1], old(self)@.regs.r[2]) {
                Some(b) => ok && final(self)@.bus == b,
                None => !ok,
            },
    {
        let mut src = self.regs.get(0);
        let mut dst = self.regs.get(1);
        let info = self.regs.get(2);
        let len = self.bus.read16(info) as u32;
        let src_w = self.bus.read8(info.wrapping_add(2)) as u32;
        let dst_w = self.bus.read8(info.wrapping_add(3)) as u32;
        let off = self.bus.read32(info.wrapping_add(4));
        if len > 0 && (src_w == 0 || src_w >= 32) {
            return false;
        }
        let offset = off & 0x7FFF_FFFF;
        let zero_too = off >> 31 != 0;
        let ghost c1 = self@;
        let ghost target = unpack_from(c1.bus, src, dst, len as nat, src_w, dst_w, offset, zero_too, 0, 0);
        let mut out: u32 = 0;
        let mut out_bits: u32 = 0;
        let mut i: u32 = 0;
        while i < len
            invariant
                i <= len <= 0xFFFF,
                len > 0 ==> 1 <= src_w < 32,
                dst_w <= 0xFF,
                out_bits < 32,
                cpu_wf(self@),
                self@ == (CpuView { bus: self@.bus, ..c1 }),
                c1 == (CpuView { bus: c1.bus, ..old(self)@ }),
                self@.bus.cycles <= c1.bus.cycles + 40 * i,
                c1.bus.cycles < 0x4000_0000_0000_0010,
                unpack_from(self@.bus, src, dst, (len - i) as nat, src_w, dst_w, offset, zero_too, out, out_bits)
                    == target,
            decreases len - i,
        {
            let byte = self.bus.read8(src) as u32;
            src = src.wrapping_add(1);
            let ghost inner = fields_from(self@.bus, dst, byte, 0, src_w, dst_w, offset, zero_too, out, out_bits);
            let ghost cyc0 = self@.bus.cycles;
            let mut bit: u32 = 0;
            while bit < 8
                invariant
                    1 <= src_w < 32,
                    dst_w <= 0xFF,
                    out_bits < 32,
                    bit < 8 + src_w,
                    cpu_wf(self@),
                    self@ == (CpuView { bus: self@.bus, ..c1 }),
                    self@.bus.cycles <= cyc0 + bit,
                    cyc0 < 0x4000_0000_1000_0000,
                    fields_from(self@.bus, dst, byte, bit, src_w, dst_w, offset, zero_too, out, out_bits) == inner,
                decreases 40 - bit,
            {
                proof { lemma_u32_bits(src_w); }
                let v = (byte >> bit) & ((1u32 << src_w) - 1);
                let v = if v != 0 || zero_too { v.wrapping_add(offset) } else { v };
                out = out | v.wrapping_shl(out_bits);
                out_bits = out_bits + dst_w;
                if out_bits >= 32 {
                    self.bus.write32(dst, out);
                    dst = dst.wrapping_add(4);
                    out = 0;
                    out_bits = 0;
                }
                bit = bit + src_w;
            }
            i = i + 1;
        }
        true
    }

    /// Stores `data` as little-endian words from `dst`, zero-padding the last.
    #[verifier::spinoff_prover]
    fn write_out_words(&mut self, dst: u32, data: &Vec<u8>)
        requires
            cpu_wf(old(self)@),
            old(self)@.bus.cycles + data.len() < 0x8000_0000_0000_0000,
        ensures
            cpu_wf(final(self)@),
            final(self)@ == (CpuView { bus: words_out(old(self)@.bus, dst, data@), ..old(self)@ }),
    {
        let ghost target = words_out(self@.bus, dst, data@);
        let ghost c0 = self@.bus.cycles;
        let mut dst = dst;
        let mut i: usize = 0;
        assert(data@.subrange(0, data.len() as int) =~= data@);
        while i < data.len()
            invariant
                i <= data.len(),
                cpu_wf(self@),
                self@ == (CpuView { bus: self@.bus, ..old(self)@ }),
                self@.bus.cycles <= c0 + i,
                c0 + data.len() < 0x8000_0000_0000_0000,
                words_out(self@.bus, dst, data@.subrange(i as int, data.len() as int)) == target,
            decreases data.len() - i,
        {
            let ghost rest = data@.subrange(i as int, data.len() as int);
            let ghost b_before = self@.bus;
            let ghost d_before = dst;
            let b0 = data[i];
            let b1: u8 = if data.len() - i > 1 { data[i + 1] } else { 0 };
            let b2: u8 = if data.len() - i > 2 { data[i + 2] } else { 0 };
            let b3: u8 = if data.len() - i > 3 { data[i + 3] } else { 0 };
            let w: u32 = b0 as u32 + b1 as u32 * 256 + b2 as u32 * 65536 + b3 as u32 * 16777216;
            self.bus.write32(dst, w);
            dst = dst.wrapping_add(4);
            i = if data.len() - i >= 4 { i + 4 } else { data.len() };
            proof {
                if rest.len() >= 4 {
                    assert(rest.subrange(4, rest.len() as int) =~= data@.subrange(i as int, data.len() as int));
                } else {
                    assert(data@.subrange(i as int, data.len() as int) =~= Seq::<u8>::empty());
                }
            }
            assert(words_out(b_before, d_before, rest) == words_out(
                self@.bus,
                dst,
                data@.subrange(i as int, data.len() as int),
            ));
        }
        assert(data@.subrange(i as int, data.len() as int) =~= Seq::<u8>::empty());
    }

    /// HuffUnComp (see `huff_decoded`); false when the stream does not
    /// finish within the limit.
    #[verifier::spinoff_prover]
    pub fn huff_decompress(&mut self) -> (ok: bool)
        requires
            cpu_wf(old(self)@),
            old(self)@.bus.cycles < 0x4000_0000_0000_0000,
        ensures
            cpu_wf(final(self)@),
            final(self)@ == (CpuView { bus: final(self)@.bus, ..old(self)@ }),
            match huff_decoded(old(self)@.bus, old(self)@.regs.r[0], old(self)@.regs.r[1]) {
                Some(b) => ok && final(self)@.bus == b,
                None => !ok,
            },
    {
        let src = self.regs.get(0);
        let header = self.bus.read32(src);
        let sym8 = header & 0xF == 8;
        let size = (header / 256) as usize;
        let tree_base = src.wrapping_add(4);
        let tree_size = self.bus.read8(tree_base) as u32;
        let mut stream = tree_base.wrapping_add((tree_size + 1) * 2);
        let root = tree_base.wrapping_add(1);
        let ghost c1 = self@;
        let ghost target = huff_words(c1.bus, stream, root, root, sym8, None, Seq::empty(), size as nat, HUFF_WORD_LIMIT as nat);
        let mut out: Vec<u8> = Vec::new();
        let mut node = root;
        let mut nibble: Option<u8> = None;
        let mut words: u32 = 0;
        while out.len() < size
            invariant
                size < 0x100_0000,
                out.len() <= size,
                words <= HUFF_WORD_LIMIT,
                cpu_wf(self@),
                self@ == (CpuView { bus: self@.bus, ..c1 }),
                c1 == (CpuView { bus: c1.bus, ..old(self)@ }),
                self@.bus.cycles <= c1.bus.cycles + 65 * words,
                c1.bus.cycles < 0x4000_0000_0000_0010,
                huff_decoded(old(self)@.bus, old(self)@.regs.r[0], old(self)@.regs.r[1]) == match target {
                    Some((b3, o)) => Some(words_out(b3, old(self)@.regs.r[1], o)),
                    None => None,
                },
                huff_words(self@.bus, stream, node, root, sym8, nibble, out@, size as nat, (HUFF_WORD_LIMIT - words) as nat) == target,
            decreases HUFF_WORD_LIMIT - words,
        {
            if words == HUFF_WORD_LIMIT {
                return false;
            }
            let word = self.bus.read32(stream);
            stream = stream.wrapping_add(4);
            words = words + 1;
            let ghost bits_target = huff_bits(self@.bus, word, 32, node, root, sym8, nibble, out@, size as nat);
            let ghost cyc0 = self@.bus.cycles;
            let mut i: u32 = 32;
            while i > 0 && out.len() < size
                invariant
                    i <= 32,
                    size < 0x100_0000,
                    out.len() <= size,
                    cpu_wf(self@),
                    self@ == (CpuView { bus: self@.bus, ..c1 }),
                    self@.bus.cycles <= cyc0 + 2 * (32 - i),
                    cyc0 < 0x4000_0100_0000_0000,
                    huff_bits(self@.bus, word, i as int, node, root, sym8, nibble, out@, size as nat) == bits_target,
                decreases i,
            {
                let nv = self.bus.read8(node) as u32;
                let bit = (word >> (i - 1)) & 1;
                proof { lemma_u32_bits(nv); }
                let next = (node & !1u32).wrapping_add(((nv & 0x3F) + 1) * 2).wrapping_add(bit);
                let leaf = if bit == 0 { nv & 0x80 != 0 } else { nv & 0x40 != 0 };
                i = i - 1;
                if leaf {
                    let sym = self.bus.read8(next);
                    node = root;
                    if sym8 {
                        out.push(sym);
                    } else {
                        match nibble {
                            None => {
                                nibble = Some(sym);
                            },
                            Some(lo) => {
                                out.push(lo | (sym << 4));
                                nibble = None;
                            },
                        }
                    }
                } else {
                    node = next;
                }
            }
        }
        let dst = self.regs.get(1);
        self.write_out_words(dst, &out);
        true
    }

    /// Runs system call `function` (see `bios_called`).
    #[verifier::spinoff_prover]
    pub fn bios_call(&mut self, function: u32) -> (r: Result<Outcome, ExecError>)
        requires
            cpu_wf(old(self)@),
            old(self)@.bus.cycles < 0x4000_0000_0000_0000,
        ensures
            cpu_wf(final(self)@),
            match bios_called(old(self)@, function) {
                Ok((c, o)) => r == Ok::<Outcome, ExecError>(o) && final(self)@ == c,
                Err(e) => r == Err::<Outcome, ExecError>(e),
            },
    {
        if function <= 0x0D {
            self.system_call(function)
        } else if 0x10 <= function && function <= 0x18 {
            self.data_call(function)
        } else {
            let addr = self.exec_addr();
            let f = function;
            if f == 0x19 || (0x1A <= f && f <= 0x1E) || (0x20 <= f && f <= 0x24) || f == 0x28 || f == 0x29 {
                // the sound driver: games carry their own copy
                Ok(Outcome::Done)
            } else if f == 0x1F {
                let base = self.bus.read32(self.regs.get(0).wrapping_add(4));
                Ok(Outcome::KeyToFreq { base, key: self.regs.get(1), fine: self.regs.get(2) })
            } else if f == 0x25 {
                self.regs.set(0, 1);  // MultiBoot: report failure
                Ok(Outcome::Done)
            } else {
                Err(ExecError::UnknownSysCall { function: f, addr })
            }
        }
    }

    /// The control, arithmetic and copy calls (0x00-0x0D).
    #[verifier::spinoff_prover]
    #[verifier::rlimit(100)]
    #[verifier::spinoff_prover]
    fn system_call(&mut self, f: u32) -> (r: Result<Outcome, ExecError>)
        requires
            cpu_wf(old(self)@),
            old(self)@.bus.cycles < 0x4000_0000_0000_0000,
            f <= 0x0D,
        ensures
            cpu_wf(final(self)@),
            match bios_called(old(self)@, f) {
                Ok((c, o)) => r == Ok::<Outcome, ExecError>(o) && final(self)@ == c,
                Err(e) => r == Err::<Outcome, ExecError>(e),
            },
    {
        let addr = self.exec_addr();
        if f == 0x00 {
            self.soft_reset();
        } else if f == 0x01 {
            self.register_ram_reset();
        } else if f == 0x02 || f == 0x03 {
            self.bus.halted = true;
        } else if f == 0x04 {
            let discard = self.regs.get(0) != 0;
            let flags = self.regs.get(1) as u16;
            self.intr_wait(discard, flags);
        } else if f == 0x05 {
            self.intr_wait(true, 1);
        } else if f == 0x06 || f == 0x07 {
            let n = if f == 0x06 { self.regs.get(0) as i32 } else { self.regs.get(1) as i32 };
            let d = if f == 0x06 { self.regs.get(1) as i32 } else { self.regs.get(0) as i32 };
            if d == 0 {
                return Err(ExecError::DivideByZero { addr });
            }
            self.div(n, d);
        } else if f == 0x08 {
            let n = self.regs.get(0);
            let r = isqrt(n);
            proof {
                assert(is_floor_sqrt(n, r));
                lemma_floor_sqrt_unique(n, r, sqrt_floor(n));
            }
            self.regs.set(0, r);
        } else if f == 0x09 {
            let r = arctan(self.regs.get(0) as i32);
            self.regs.set(0, r as u32);
        } else if f == 0x0A {
            let x = self.regs.get(0) as i32;
            let y = self.regs.get(1) as i32;
            if x == i32::MIN || y == i32::MIN {
                return Err(ExecError::BadArgument { function: f, addr });
            }
            let r = arctan2(x, y);
            self.regs.set(0, r);
        } else if f == 0x0B {
            self.cpu_set();
        } else if f == 0x0C {
            self.cpu_fast_set();
        } else {
            self.regs.set(0, 0xBAAE_187F);  // GetBiosChecksum
        }
        Ok(Outcome::Done)
    }

    /// The unpacking and decompression calls (0x10-0x18).
    #[verifier::spinoff_prover]
    fn data_call(&mut self, f: u32) -> (r: Result<Outcome, ExecError>)
        requires
            cpu_wf(old(self)@),
            old(self)@.bus.cycles < 0x4000_0000_0000_0000,
            0x10 <= f <= 0x18,
        ensures
            cpu_wf(final(self)@),
            match bios_called(old(self)@, f) {
                Ok((c, o)) => r == Ok::<Outcome, ExecError>(o) && final(self)@ == c,
                Err(e) => r == Err::<Outcome, ExecError>(e),
            },
    {
        if f == 0x10 {
            self.call_bit_unpack(f)
        } else if f == 0x11 || f == 0x12 {
            self.call_lz77(f)
        } else if f == 0x13 {
            self.call_huff(f)
        } else if f == 0x14 || f == 0x15 {
            self.call_rl(f)
        } else if f == 0x16 || f == 0x17 {
            self.diff8_unfilter(f == 0x17);
            Ok(Outcome::Done)
        } else {
            self.diff16_unfilter();
            Ok(Outcome::Done)
        }
    }

    #[verifier::spinoff_prover]
    fn call_bit_unpack(&mut self, f: u32) -> (r: Result<Outcome, ExecError>)
        requires
            cpu_wf(old(self)@),
            old(self)@.bus.cycles < 0x4000_0000_0000_0000,
            f == 0x10,
        ensures
            cpu_wf(final(self)@),
            match bios_called(old(self)@, f) {
                Ok((c, o)) => r == Ok::<Outcome, ExecError>(o) && final(self)@ == c,
                Err(e) => r == Err::<Outcome, ExecError>(e),
            },
    {
        let addr = self.exec_addr();
        if !self.bit_unpack() {
            return Err(ExecError::BadArgument { function: f, addr });
        }
        Ok(Outcome::Done)
    }

    #[verifier::spinoff_prover]
    fn call_lz77(&mut self, f: u32) -> (r: Result<Outcome, ExecError>)
        requires
            cpu_wf(old(self)@),
            old(self)@.bus.cycles < 0x4000_0000_0000_0000,
            f == 0x11 || f == 0x12,
        ensures
            cpu_wf(final(self)@),
            match bios_called(old(self)@, f) {
                Ok((c, o)) => r == Ok::<Outcome, ExecError>(o) && final(self)@ == c,
                Err(e) => r == Err::<Outcome, ExecError>(e),
            },
    {
        let addr = self.exec_addr();
        match self.lz77_decompress() {
            Some(d) => {
                if f == 0x11 {
                    self.write_out_bytes(&d);
                } else {
                    self.write_out_halfwords(&d);
                }
                Ok(Outcome::Done)
            },
            None => Err(ExecError::BadArgument { function: f, addr }),
        }
    }

    #[verifier::spinoff_prover]
    fn call_huff(&mut self, f: u32) -> (r: Result<Outcome, ExecError>)
        requires
            cpu_wf(old(self)@),
            old(self)@.bus.cycles < 0x4000_0000_0000_0000,
            f == 0x13,
        ensures
            cpu_wf(final(self)@),
            match bios_called(old(self)@, f) {
                Ok((c, o)) => r == Ok::<Outcome, ExecError>(o) && final(self)@ == c,
                Err(e) => r == Err::<Outcome, ExecError>(e),
            },
    {
        let addr = self.exec_addr();
        if !self.huff_decompress() {
            return Err(ExecError::BadArgument { function: f, addr });
        }
        Ok(Outcome::Done)
    }

    #[verifier::spinoff_prover]
    fn call_rl(&mut self, f: u32) -> (r: Result<Outcome, ExecError>)
        requires
            cpu_wf(old(self)@),
            old(self)@.bus.cycles < 0x4000_0000_0000_0000,
            f == 0x14 || f == 0x15,
        ensures
            cpu_wf(final(self)@),
            match bios_called(old(self)@, f) {
                Ok((c, o)) => r == Ok::<Outcome, ExecError>(o) && final(self)@ == c,
                Err(e) => r == Err::<Outcome, ExecError>(e),
            },
    {
        let d = self.rl_decompress();
        if f == 0x14 {
            self.write_out_bytes(&d);
        } else {
            self.write_out_halfwords(&d);
        }
        Ok(Outcome::Done)
    }
}

} // verus!
