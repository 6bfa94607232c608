//! DMA controller: four channels with immediate, vblank and hblank timing.
//! A triggered channel runs its whole transfer between CPU steps, the
//! cycles accruing through the ordinary bus reads and writes.
use vstd::prelude::*;
use crate::bits::{lemma_u16_bits, lemma_u32_bits};
use crate::gba::bus::{
    Bus, BusView, Dma, bus_wf, clocked, cnt_h, dma_count, dma_ctrl_written, io16, io32, io_set,
    irq_raised, read16_value, read32_value, stored16, stored32,
};

verus! {

/// Every enabled channel whose start timing is `timing` becomes pending.
pub open spec fn dma_triggered(b: BusView, timing: u16) -> BusView {
    BusView {
        dma: Seq::new(
            4,
            |ch: int|
                if io16(b, cnt_h(ch)) & 0x8000 != 0 && (io16(b, cnt_h(ch)) >> 12u16) & 3 == timing {
                    Dma { pending: true, ..b.dma[ch] }
                } else {
                    b.dma[ch]
                },
        ),
        ..b
    }
}

/// The lowest pending channel: channel 0 has the highest priority.
pub open spec fn first_pending(d: Seq<Dma>) -> Option<usize> {
    if d[0].pending {
        Some(0)
    } else if d[1].pending {
        Some(1)
    } else if d[2].pending {
        Some(2)
    } else if d[3].pending {
        Some(3)
    } else {
        None
    }
}

/// An address stepped by `unit` according to a 2-bit adjust field:
/// 1 decrements, 2 holds, 0 and the prohibited 3 increment (wrapping).
pub open spec fn adjusted(a: u32, adj: u16, unit: u32) -> u32 {
    if adj == 1 {
        if a >= unit { (a - unit) as u32 } else { (a + 0x1_0000_0000 - unit) as u32 }
    } else if adj == 2 {
        a
    } else {
        if a + unit < 0x1_0000_0000 { (a + unit) as u32 } else { (a + unit - 0x1_0000_0000) as u32 }
    }
}

/// One unit moved from `src` to `dst`: a read then a write, one cycle each.
pub open spec fn unit_moved(b: BusView, src: u32, dst: u32, unit: u32) -> BusView {
    let c = clocked(b);
    if unit == 4 {
        stored32(clocked(c), dst, read32_value(c, src))
    } else {
        stored16(clocked(c), dst, read16_value(c, src))
    }
}

/// `n` units moved; returns the state and the final source and destination.
pub open spec fn units_moved(
    b: BusView,
    src: u32,
    dst: u32,
    unit: u32,
    src_adj: u16,
    dst_adj: u16,
    n: nat,
) -> (BusView, u32, u32)
    decreases n,
{
    if n == 0 {
        (b, src, dst)
    } else {
        let (c, s, d) = units_moved(b, src, dst, unit, src_adj, dst_adj, (n - 1) as nat);
        (unit_moved(c, s, d, unit), adjusted(s, src_adj, unit), adjusted(d, dst_adj, unit))
    }
}

/// Direct Sound DMA: special timing with a FIFO port as destination.
pub open spec fn is_fifo_dma(ctrl: u16, dst: u32) -> bool {
    (ctrl >> 12u16) & 3 == 3 && (dst == 0x0400_00A0 || dst == 0x0400_00A4)
}

pub open spec fn transfer_unit(ctrl: u16, dst: u32) -> u32 {
    if is_fifo_dma(ctrl, dst) || ctrl & 0x400 != 0 { 4 } else { 2 }
}

/// Channel `ch` run to completion.
pub open spec fn dma_ran(b: BusView, ch: int) -> BusView {
    let b0 = BusView { dma: b.dma.update(ch, Dma { pending: false, ..b.dma[ch] }), ..b };
    let ctrl = io16(b0, cnt_h(ch));
    let d = b0.dma[ch];
    let fifo = is_fifo_dma(ctrl, d.dst);
    let unit = transfer_unit(ctrl, d.dst);
    let dst_adj: u16 = if fifo { 2 } else { (ctrl >> 5u16) & 3 };
    let src_adj: u16 = (ctrl >> 7u16) & 3;
    let count: u32 = if fifo { 4 } else { d.count };
    let src = (d.src - d.src % unit) as u32;
    let dst = (d.dst - d.dst % unit) as u32;
    let (b1, s1, d1) = units_moved(b0, src, dst, unit, src_adj, dst_adj, count as nat);
    let b2 = BusView { dma: b1.dma.update(ch, Dma { src: s1, dst: d1, ..b1.dma[ch] }), ..b1 };
    let b3 = if ctrl & 0x200 != 0 && (ctrl >> 12u16) & 3 != 0 {
        // repeat: reload the count; increment-and-reload also re-latches the dest
        let dd = Dma {
            count: dma_count(ch, io16(b2, 0x0B0 + ch * 0xC + 8)),
            dst: if dst_adj == 3 { io32(b2, 0x0B0 + ch * 0xC + 4) } else { b2.dma[ch].dst },
            ..b2.dma[ch]
        };
        BusView { dma: b2.dma.update(ch, dd), ..b2 }
    } else {
        io_set(b2, cnt_h(ch) + 1, b2.io[cnt_h(ch) + 1] & 0x7F)
    };
    if ctrl & 0x4000 != 0 {
        irq_raised(b3, (0x100u16 << (ch as u16)) as u16)
    } else {
        b3
    }
}

/// Room on the cycle counter for the longest transfer.
pub open spec fn dma_room(b: BusView) -> bool {
    b.cycles < 0x7FFF_FFFF_FFF0_0000
}

fn cnt_h_of(ch: usize) -> (r: usize)
    requires
        ch < 4,
    ensures
        r == cnt_h(ch as int),
{
    0x0BA + ch * 0xC
}

fn step_addr(a: u32, adj: u16, unit: u32) -> (r: u32)
    ensures
        r == adjusted(a, adj, unit),
{
    if adj == 1 {
        if a >= unit { a - unit } else { (a as u64 + 0x1_0000_0000 - unit as u64) as u32 }
    } else if adj == 2 {
        a
    } else {
        if a as u64 + (unit as u64) < 0x1_0000_0000 {
            a + unit
        } else {
            (a as u64 + unit as u64 - 0x1_0000_0000) as u32
        }
    }
}

impl Bus {
    /// 14-bit count on channels 0-2, 16-bit on 3; zero means the maximum.
    fn dma_count(ch: usize, raw: u16) -> (c: u32)
        ensures
            c == dma_count(ch as int, raw),
            1 <= c <= 0x1_0000,
    {
        proof { lemma_u16_bits(raw); }
        let c: u32 = if ch == 3 { raw as u32 } else { (raw & 0x3FFF) as u32 };
        if c == 0 {
            if ch == 3 { 0x1_0000 } else { 0x4000 }
        } else {
            c
        }
    }

    /// Called on every CNT_H byte store: latch on a 0-to-1 enable edge,
    /// drop pending work on disable.
    pub(crate) fn dma_ctrl_write(&mut self, ch: usize, was_enabled: bool)
        requires
            bus_wf(old(self)@),
            ch < 4,
        ensures
            bus_wf(final(self)@),
            final(self)@ == dma_ctrl_written(old(self)@, ch as int, was_enabled),
    {
        let ctrl = self.io16(cnt_h_of(ch));
        if ctrl & 0x8000 == 0 {
            let d = Dma { pending: false, ..self.dma[ch] };
            self.dma.set(ch, d);
            return;
        }
        if was_enabled {
            return;
        }
        let base = 0x0B0 + ch * 0xC;
        let src = self.io32(base);
        let dst = self.io32(base + 4);
        let count = Self::dma_count(ch, self.io16(base + 8));
        let pending = if (ctrl >> 12) & 3 == 0 { true } else { self.dma[ch].pending };
        self.dma.set(ch, Dma { src, dst, count, pending });
    }

    pub fn dma_on_vblank(&mut self)
        requires
            bus_wf(old(self)@),
        ensures
            bus_wf(final(self)@),
            final(self)@ == dma_triggered(old(self)@, 1),
    {
        self.dma_trigger(1);
    }

    pub fn dma_on_hblank(&mut self)
        requires
            bus_wf(old(self)@),
        ensures
            bus_wf(final(self)@),
            final(self)@ == dma_triggered(old(self)@, 2),
    {
        self.dma_trigger(2);
    }

    fn dma_trigger(&mut self, timing: u16)
        requires
            bus_wf(old(self)@),
        ensures
            bus_wf(final(self)@),
            final(self)@ == dma_triggered(old(self)@, timing),
    {
        let ghost b0 = self@;
        let mut ch: usize = 0;
        while ch < 4
            invariant
                ch <= 4,
                bus_wf(self@),
                self@ == (BusView { dma: self@.dma, ..b0 }),
                self@.dma.len() == 4,
                forall|i: int| 0 <= i < ch ==> self@.dma[i] == #[trigger] dma_triggered(b0, timing).dma[i],
                forall|i: int| ch <= i < 4 ==> self@.dma[i] == #[trigger] b0.dma[i],
            decreases 4 - ch,
        {
            let ctrl = self.io16(cnt_h_of(ch));
            if ctrl & 0x8000 != 0 && (ctrl >> 12) & 3 == timing {
                let d = Dma { pending: true, ..self.dma[ch] };
                self.dma.set(ch, d);
            }
            ch = ch + 1;
        }
        assert(self@.dma =~= dma_triggered(b0, timing).dma);
    }

    /// Lowest pending channel: channel 0 has the highest priority.
    pub fn dma_ready(&self) -> (r: Option<usize>)
        requires
            bus_wf(self@),
        ensures
            r == first_pending(self@.dma),
    {
        if self.dma[0].pending {
            Some(0)
        } else if self.dma[1].pending {
            Some(1)
        } else if self.dma[2].pending {
            Some(2)
        } else if self.dma[3].pending {
            Some(3)
        } else {
            None
        }
    }

    /// Runs channel `ch` to completion.
    #[verifier::rlimit(40)]
    pub fn run_dma(&mut self, ch: usize)
        requires
            bus_wf(old(self)@),
            dma_room(old(self)@),
            ch < 4,
        ensures
            bus_wf(final(self)@),
            final(self)@ == dma_ran(old(self)@, ch as int),
    {
        let d = Dma { pending: false, ..self.dma[ch] };
        self.dma.set(ch, d);
        let ghost b0 = self@;
        let ctrl = self.io16(cnt_h_of(ch));
        proof { lemma_u16_bits(ctrl); }
        let d = self.dma[ch];
        let fifo_dma = (ctrl >> 12) & 3 == 3 && (d.dst == 0x0400_00A0 || d.dst == 0x0400_00A4);
        let unit: u32 = if fifo_dma || ctrl & 0x400 != 0 { 4 } else { 2 };
        let dst_adj: u16 = if fifo_dma { 2 } else { (ctrl >> 5) & 3 };
        let src_adj: u16 = (ctrl >> 7) & 3;
        let count: u32 = if fifo_dma { 4 } else { d.count };
        proof { lemma_u32_bits(d.src); lemma_u32_bits(d.dst); }
        let mut src = if unit == 4 { d.src & !3u32 } else { d.src & !1u32 };
        let mut dst = if unit == 4 { d.dst & !3u32 } else { d.dst & !1u32 };
        let ghost s0 = src;
        let ghost t0 = dst;
        assert(b0.dma[ch as int] == d);
        assert(unit == transfer_unit(ctrl, d.dst));
        assert(s0 == (d.src - d.src % unit) as u32);
        assert(t0 == (d.dst - d.dst % unit) as u32);
        let mut i: u32 = 0;
        while i < count
            invariant
                i <= count <= 0x1_0000,
                unit == 2 || unit == 4,
                bus_wf(self@),
                self@.cycles == b0.cycles + 2 * i,
                b0.cycles < 0x7FFF_FFFF_FFF0_0000,
                (self@, src, dst) == units_moved(b0, s0, t0, unit, src_adj, dst_adj, i as nat),
            decreases count - i,
        {
            self.move_unit(src, dst, unit);
            src = step_addr(src, src_adj, unit);
            dst = step_addr(dst, dst_adj, unit);
            i = i + 1;
        }
        assert((self@, src, dst) == units_moved(b0, s0, t0, unit, src_adj, dst_adj, count as nat));
        self.finish_dma(ch, ctrl, dst_adj, src, dst);
    }

    /// One unit read from `src` and written to `dst`.
    fn move_unit(&mut self, src: u32, dst: u32, unit: u32)
        requires
            bus_wf(old(self)@),
            old(self)@.cycles + 2 < 0x8000_0000_0000_0000,
        ensures
            bus_wf(final(self)@),
            final(self)@.cycles == old(self)@.cycles + 2,
            final(self)@ == unit_moved(old(self)@, src, dst, unit),
    {
        if unit == 4 {
            let v = self.read32(src);
            self.write32(dst, v);
        } else {
            let v = self.read16(src);
            self.write16(dst, v);
        }
    }

    /// After the transfer: store the advanced addresses, then either reload
    /// for a repeat or clear the enable bit, and raise the interrupt.
    fn finish_dma(&mut self, ch: usize, ctrl: u16, dst_adj: u16, src: u32, dst: u32)
        requires
            bus_wf(old(self)@),
            ch < 4,
        ensures
            bus_wf(final(self)@),
            final(self)@ == ({
                let b1 = old(self)@;
                let b2 = BusView { dma: b1.dma.update(ch as int, Dma { src: src, dst: dst, ..b1.dma[ch as int] }), ..b1 };
                let b3 = if ctrl & 0x200 != 0 && (ctrl >> 12u16) & 3 != 0 {
                    let dd = Dma {
                        count: dma_count(ch as int, io16(b2, 0x0B0 + ch * 0xC + 8)),
                        dst: if dst_adj == 3 { io32(b2, 0x0B0 + ch * 0xC + 4) } else { b2.dma[ch as int].dst },
                        ..b2.dma[ch as int]
                    };
                    BusView { dma: b2.dma.update(ch as int, dd), ..b2 }
                } else {
                    io_set(b2, cnt_h(ch as int) + 1, b2.io[cnt_h(ch as int) + 1] & 0x7F)
                };
                if ctrl & 0x4000 != 0 {
                    irq_raised(b3, (0x100u16 << (ch as u16)) as u16)
                } else {
                    b3
                }
            }),
    {
        let e = Dma { src, dst, ..self.dma[ch] };
        self.dma.set(ch, e);
        let ghost b2 = self@;
        if ctrl & 0x200 != 0 && (ctrl >> 12) & 3 != 0 {
            let base = 0x0B0 + ch * 0xC;
            let count = Self::dma_count(ch, self.io16(base + 8));
            let e = Dma { count, ..self.dma[ch] };
            self.dma.set(ch, e);
            if dst_adj == 3 {
                let e = Dma { dst: self.io32(base + 4), ..self.dma[ch] };
                self.dma.set(ch, e);
            }
            let ghost dd = Dma {
                count: dma_count(ch as int, io16(b2, 0x0B0 + ch * 0xC + 8)),
                dst: if dst_adj == 3 { io32(b2, 0x0B0 + ch * 0xC + 4) } else { b2.dma[ch as int].dst },
                ..b2.dma[ch as int]
            };
            assert(self@.dma =~= b2.dma.update(ch as int, dd));
        } else {
            let r = cnt_h_of(ch) + 1;
            let v = self.io[r] & 0x7F;
            self.io.set(r, v);
        }
        if ctrl & 0x4000 != 0 {
            self.raise_irq(0x100u16 << (ch as u16));
        }
    }
}

} // verus!
