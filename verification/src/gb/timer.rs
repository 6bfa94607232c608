//! DIV/TIMA/TMA/TAC timer with the falling-edge detector behavior of the
//! real hardware.
use vstd::prelude::*;
use crate::bits::lemma_u16_bits;

verus! {

/// Everything the timer holds, as plain values.
pub struct TimerView {
    pub counter: u16,
    pub tima: u8,
    pub tma: u8,
    pub tac: u8,
    pub prev_bit: bool,
    pub overflow_delay: u8,
}

/// The divider bit that TAC's clock select watches.
pub open spec fn tac_bit(tac: u8) -> u16 {
    if tac & 3 == 0 {
        9
    } else if tac & 3 == 1 {
        3
    } else if tac & 3 == 2 {
        5
    } else {
        7
    }
}

/// The edge detector's input: timer enabled and the selected divider bit set.
pub open spec fn edge_input(counter: u16, tac: u8) -> bool {
    (tac & 0x04 != 0) && (counter >> tac_bit(tac)) & 1 == 1
}

/// Re-sample the edge detector: a falling edge increments TIMA, and an
/// increment past 0xFF arms the four-cycle reload.
pub open spec fn edge_step(t: TimerView) -> TimerView {
    let cur = edge_input(t.counter, t.tac);
    if t.prev_bit && !cur {
        TimerView {
            tima: t.tima.wrapping_add(1),
            overflow_delay: if t.tima == 0xFF { 4 } else { t.overflow_delay },
            prev_bit: cur,
            ..t
        }
    } else {
        TimerView { prev_bit: cur, ..t }
    }
}

/// One T-cycle before the edge detector runs: a pending reload counts down
/// and, on reaching zero, loads TMA into TIMA; then the divider advances.
pub open spec fn pre_tick(t: TimerView) -> TimerView {
    let t1 = if t.overflow_delay > 0 {
        if t.overflow_delay == 1 {
            TimerView { overflow_delay: 0, tima: t.tma, ..t }
        } else {
            TimerView { overflow_delay: (t.overflow_delay - 1) as u8, ..t }
        }
    } else {
        t
    };
    TimerView { counter: t1.counter.wrapping_add(1), ..t1 }
}

/// A full T-cycle.
pub open spec fn tick_step(t: TimerView) -> TimerView {
    edge_step(pre_tick(t))
}

/// Whether a T-cycle raises the timer interrupt: the reload completes.
pub open spec fn tick_irq(t: TimerView) -> bool {
    t.overflow_delay == 1
}

pub struct Timer {
    counter: u16,
    pub tima: u8,
    pub tma: u8,
    tac: u8,
    prev_bit: bool,
    overflow_delay: u8,
}

impl View for Timer {
    type V = TimerView;

    closed spec fn view(&self) -> TimerView {
        TimerView {
            counter: self.counter,
            tima: self.tima,
            tma: self.tma,
            tac: self.tac,
            prev_bit: self.prev_bit,
            overflow_delay: self.overflow_delay,
        }
    }
}

impl Timer {
    pub fn new() -> (t: Self)
        ensures
            t@ == (TimerView {
                counter: 0,
                tima: 0,
                tma: 0,
                tac: 0,
                prev_bit: false,
                overflow_delay: 0,
            }),
    {
        Timer { counter: 0, tima: 0, tma: 0, tac: 0, prev_bit: false, overflow_delay: 0 }
    }

    /// Advances one T-cycle. Returns true when the timer interrupt fires.
    pub fn tick(&mut self) -> (irq: bool)
        ensures
            final(self)@ == tick_step(old(self)@),
            irq == tick_irq(old(self)@),
    {
        let mut irq = false;
        if self.overflow_delay > 0 {
            self.overflow_delay = self.overflow_delay - 1;
            if self.overflow_delay == 0 {
                self.tima = self.tma;
                irq = true;
            }
        }
        self.counter = self.counter.wrapping_add(1);
        self.update_edge();
        irq
    }

    fn update_edge(&mut self)
        ensures
            final(self)@ == edge_step(old(self)@),
    {
        let bit: u16 = match self.tac & 0x03 {
            0 => 9,
            1 => 3,
            2 => 5,
            _ => 7,
        };
        let cur = (self.tac & 0x04 != 0) && (self.counter >> bit) & 1 == 1;
        if self.prev_bit && !cur {
            let overflowed = self.tima == 0xFF;
            self.tima = self.tima.wrapping_add(1);
            if overflowed {
                self.overflow_delay = 4;
            }
        }
        self.prev_bit = cur;
    }

    /// DIV is the high byte of the internal divider.
    pub fn read_div(&self) -> (r: u8)
        ensures
            r == self@.counter / 256,
    {
        proof { lemma_u16_bits(self.counter); }
        (self.counter >> 8) as u8
    }

    /// Writing any value to DIV resets the whole internal divider, which can
    /// itself produce a falling edge.
    pub fn write_div(&mut self)
        ensures
            final(self)@ == edge_step(TimerView { counter: 0, ..old(self)@ }),
    {
        self.counter = 0;
        self.update_edge();
    }

    pub fn read_tac(&self) -> (r: u8)
        ensures
            r == self@.tac | 0xF8,
    {
        self.tac | 0xF8
    }

    pub fn write_tac(&mut self, value: u8)
        ensures
            final(self)@ == edge_step(TimerView { tac: value & 0x07, ..old(self)@ }),
    {
        self.tac = value & 0x07;
        self.update_edge();
    }

    /// A TIMA write during the reload delay cancels the reload.
    pub fn write_tima(&mut self, value: u8)
        ensures
            final(self)@ == (TimerView { tima: value, overflow_delay: 0, ..old(self)@ }),
    {
        self.tima = value;
        self.overflow_delay = 0;
    }

    pub fn read_tima(&self) -> (r: u8)
        ensures
            r == self@.tima,
    {
        self.tima
    }

    pub fn read_tma(&self) -> (r: u8)
        ensures
            r == self@.tma,
    {
        self.tma
    }

    /// Sets TMA, the reload value.
    pub fn write_tma(&mut self, value: u8)
        ensures
            final(self)@ == (TimerView { tma: value, ..old(self)@ }),
    {
        self.tma = value;
    }
}

impl Default for Timer {
    fn default() -> (t: Self)
        ensures
            t@ == (TimerView {
                counter: 0,
                tima: 0,
                tma: 0,
                tac: 0,
                prev_bit: false,
                overflow_delay: 0,
            }),
    {
        Timer::new()
    }
}

/// The divider counts every T-cycle, whatever else the timer does.
pub proof fn lemma_divider_counts_every_cycle(t: TimerView)
    ensures
        tick_step(t).counter == t.counter.wrapping_add(1),
        tick_step(t).tac == t.tac,
        tick_step(t).tma == t.tma,
{
}

/// A disabled timer (TAC bit 2 clear, detector input low) never changes TIMA
/// and never raises the interrupt by itself.
pub proof fn lemma_disabled_timer_keeps_tima(t: TimerView)
    requires
        t.tac & 0x04 == 0,
        !t.prev_bit,
        t.overflow_delay == 0,
    ensures
        tick_step(t).tima == t.tima,
        !tick_step(t).prev_bit,
        tick_step(t).overflow_delay == 0,
        !tick_irq(t),
{
}

/// `n` T-cycles from `t` with no register writes.
pub open spec fn timer_ticks(t: TimerView, n: nat) -> TimerView
    decreases n,
{
    if n == 0 {
        t
    } else {
        tick_step(timer_ticks(t, (n - 1) as nat))
    }
}

/// Over `n` T-cycles the divider counts `n` (modulo 2^16), so DIV, its high
/// byte, goes up once every 256 cycles.
pub proof fn lemma_div_after_ticks(t: TimerView, n: nat)
    ensures
        timer_ticks(t, n).counter == (t.counter + n) % 65536,
        timer_ticks(t, n).counter / 256 == ((t.counter + n) / 256) % 256,
    decreases n,
{
    if n > 0 {
        lemma_div_after_ticks(t, (n - 1) as nat);
        lemma_divider_counts_every_cycle(timer_ticks(t, (n - 1) as nat));
    }
    let a = t.counter + n;
    assert(a / 256 == (a / 65536) * 256 + (a % 65536) / 256) by (nonlinear_arith)
        requires a >= 0;
    assert((a % 65536) / 256 < 256) by (nonlinear_arith)
        requires a >= 0;
    assert(((a / 65536) * 256 + (a % 65536) / 256) % 256 == (a % 65536) / 256) by (nonlinear_arith)
        requires a >= 0, (a % 65536) / 256 < 256;
}


/// TAC's clock select as a period in T-cycles: 4096, 262144, 65536 and
/// 16384 Hz on the 4 MiHz clock.
pub open spec fn tac_period(tac: u8) -> int {
    if tac & 3 == 0 {
        1024
    } else if tac & 3 == 1 {
        16
    } else if tac & 3 == 2 {
        64
    } else {
        256
    }
}

/// The TIMA rate: with the edge detector in step with the divider and no
/// reload completing, a T-cycle increments TIMA exactly when the timer is
/// enabled and the divider reaches a multiple of TAC's period (so select 2
/// counts once every 64 cycles), and leaves it alone otherwise. The
/// detector stays in step.
pub proof fn lemma_tima_rate(t: TimerView)
    requires
        t.prev_bit == edge_input(t.counter, t.tac),
        t.overflow_delay != 1,
    ensures
        tick_step(t).counter == (t.counter + 1) % 65536,
        tick_step(t).tima == if t.tac & 4 != 0 && (tick_step(t).counter as int) % tac_period(t.tac) == 0 {
            t.tima.wrapping_add(1)
        } else {
            t.tima
        },
        tick_step(t).prev_bit == edge_input(tick_step(t).counter, t.tac),
{
    let c = t.counter;
    let d = pre_tick(t).counter;
    assert(d == (c + 1) % 65536);
    assert({
        &&& (((c >> 9u16) & 1 == 1 && (d >> 9u16) & 1 != 1) == (d % 1024u16 == 0u16))
        &&& (((c >> 3u16) & 1 == 1 && (d >> 3u16) & 1 != 1) == (d % 16u16 == 0u16))
        &&& (((c >> 5u16) & 1 == 1 && (d >> 5u16) & 1 != 1) == (d % 64u16 == 0u16))
        &&& (((c >> 7u16) & 1 == 1 && (d >> 7u16) & 1 != 1) == (d % 256u16 == 0u16))
    }) by (bit_vector)
        requires
            c < 0xFFFF ==> d == (c + 1) as u16,
            c == 0xFFFF ==> d == 0,
    ;
}

} // verus!
