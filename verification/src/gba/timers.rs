//! The four timers, synced lazily: the bus advances them by the cycles that
//! passed since the last sync. Reload values live in the I/O page, live
//! counters in the bus's timer slots.
use vstd::prelude::*;
use crate::bits::lemma_u16_bits;
use crate::gba::bus::{
    Bus, BusView, Timer, sync_room, bus_wf, io16, prescale, timer_advanced, timers_caught_up,
    timers_from, with_timer,
};

verus! {

fn prescale_of(sel: u16) -> (p: u64)
    ensures
        p == prescale(sel),
        1 <= p <= 1024,
{
    if sel == 0 {
        1
    } else if sel == 1 {
        64
    } else if sel == 2 {
        256
    } else {
        1024
    }
}

impl Bus {
    /// Brings the timers up to the cycle counter.
    pub fn timers_catch_up(&mut self)
        requires
            bus_wf(old(self)@),
            sync_room(old(self)@),
        ensures
            bus_wf(final(self)@),
            final(self)@ == timers_caught_up(old(self)@),
            final(self)@.cycles == old(self)@.cycles,
    {
        let elapsed = self.cycles - self.timers_synced;
        self.timers_synced = self.cycles;
        if elapsed == 0 {
            return;
        }
        let ghost target = timers_from(self@, elapsed, 0, 0);
        let mut overflows: u64 = 0;
        let mut t: usize = 0;
        while t < 4
            invariant
                t <= 4,
                bus_wf(self@),
                self@.cycles == old(self)@.cycles,
                elapsed <= 0x8000_0000_0000_0000,
                overflows <= elapsed + 1024,
                timers_from(self@, elapsed, t as int, overflows) == target,
            decreases 4 - t,
        {
            let ctrl = self.io16(0x102 + t * 4);
            if ctrl & 0x80 == 0 {
                // a disabled timer breaks the cascade chain
                overflows = 0;
                t = t + 1;
                continue;
            }
            let ticks = if t > 0 && ctrl & 4 != 0 {
                overflows
            } else {
                proof { lemma_u16_bits(ctrl); }
                let rem = self.timers[t].rem + elapsed;
                let p = prescale_of(ctrl & 3);
                let tm = Timer { counter: self.timers[t].counter, rem: rem % p };
                self.timers.set(t, tm);
                proof {
                    assert(rem / p <= rem) by (nonlinear_arith)
                        requires
                            p >= 1,
                    ;
                }
                rem / p
            };
            overflows = self.timer_advance(t, ticks);
            t = t + 1;
        }
    }

    /// Adds `ticks` to timer `t`; returns how many times it overflowed.
    fn timer_advance(&mut self, t: usize, ticks: u64) -> (n: u64)
        requires
            bus_wf(old(self)@),
            t < 4,
            ticks <= 0x8000_0000_0000_0000 + 2048,
        ensures
            bus_wf(final(self)@),
            n <= ticks,
            (final(self)@, n) == timer_advanced(old(self)@, t as int, ticks),
    {
        if ticks == 0 {
            return 0;
        }
        let total = self.timers[t].counter as u64 + ticks;
        if total < 0x1_0000 {
            let tm = Timer { counter: total as u16, rem: self.timers[t].rem };
            self.timers.set(t, tm);
            return 0;
        }
        let reload = self.io16(0x100 + t * 4) as u64;
        let period = 0x1_0000 - reload;
        let past = total - 0x1_0000;
        let tm = Timer { counter: (reload + past % period) as u16, rem: self.timers[t].rem };
        self.timers.set(t, tm);
        if self.io16(0x102 + t * 4) & 0x40 != 0 {
            self.raise_irq(8u16 << (t as u16));
        }
        proof {
            assert(past / period <= past) by (nonlinear_arith)
                requires
                    period >= 1,
            ;
        }
        1 + past / period
    }
}

} // verus!
