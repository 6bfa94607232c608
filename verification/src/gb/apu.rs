//! Sound: two pulse channels (the first with a frequency sweep), a wave
//! channel and a noise channel, clocked by a 512 Hz frame sequencer. Each host
//! sample is the stereo mix as a pair of integers in units of 1/480 of full
//! scale, so that the whole audio path stays in exact arithmetic.
use vstd::prelude::*;
use crate::bytes::filled;
use crate::bits::lemma_u8_bits;

verus! {

/// T-cycles per second of the master clock.
pub const CLOCK_HZ: u32 = 4194304;
/// T-cycles per frame-sequencer step (512 Hz).
pub const SEQ_PERIOD: u32 = 8192;
/// Host sample rate until one is configured.
pub const DEFAULT_RATE: u32 = 48000;
/// Divides a mixed sample into the range -1.0..=1.0.
pub const SAMPLE_SCALE: i32 = 480;

/// Largest channel timer magnitude that the channel periods can produce.
pub open spec fn timer_bound() -> int {
    0x40_0000
}

/// The 8-step waveform of duty setting `d` (bit 7 plays first).
pub open spec fn duty_pattern(d: u8) -> u8 {
    if d == 0 {
        0x01
    } else if d == 1 {
        0x81
    } else if d == 2 {
        0x87
    } else {
        0x7E
    }
}

/// Noise clock divisor for NR43 bits 0-2.
pub open spec fn noise_divisor(i: u8) -> u32 {
    if i == 0 {
        8
    } else {
        (16 * i) as u32
    }
}

/// Envelope tick on (volume, timer) for envelope register `nrx2`.
pub open spec fn envelope_step(nrx2: u8, vol: u8, timer: u8) -> (u8, u8) {
    let period = nrx2 & 7;
    if period == 0 {
        (vol, timer)
    } else {
        let t: u8 = if timer > 0 { (timer - 1) as u8 } else { 0 };
        if t == 0 {
            let v: u8 = if nrx2 & 8 != 0 {
                if vol + 1 < 15 { (vol + 1) as u8 } else { 15 }
            } else {
                if vol > 0 { (vol - 1) as u8 } else { 0 }
            };
            (v, period)
        } else {
            (vol, t)
        }
    }
}

/// Length counter tick: returns (length, still enabled).
pub open spec fn length_step(length_enable: bool, length: u16, enabled: bool) -> (u16, bool) {
    if length_enable && length > 0 {
        let l = (length - 1) as u16;
        (l, if l == 0 { false } else { enabled })
    } else {
        (length, enabled)
    }
}

/// The analog level of a 4-bit channel output, doubled and offset so that
/// 0..=15 maps to -15..=15; a channel whose DAC is off contributes nothing.
pub open spec fn analog(v: u8, dac: bool) -> int {
    if dac {
        2 * v - 15
    } else {
        0
    }
}

// ------------------------------------------------------------------ pulse

pub struct Pulse {
    pub has_sweep: bool,
    pub enabled: bool,
    pub nrx0: u8,
    pub nrx1: u8,
    pub nrx2: u8,
    /// 11-bit frequency from NRx3/NRx4.
    pub freq: u16,
    pub length_enable: bool,
    pub duty_pos: u8,
    pub timer: i32,
    pub length: u16,
    pub env_vol: u8,
    pub env_timer: u8,
    pub sweep_timer: u8,
    pub sweep_shadow: u16,
    pub sweep_enabled: bool,
}

pub open spec fn pulse_wf(p: Pulse) -> bool {
    &&& p.freq <= 2047
    &&& p.duty_pos <= 7
    &&& -timer_bound() <= p.timer <= timer_bound()
    &&& p.env_vol <= 15
    &&& p.sweep_shadow <= 2047
}

pub open spec fn pulse_init(has_sweep: bool) -> Pulse {
    Pulse {
        has_sweep,
        enabled: false,
        nrx0: 0,
        nrx1: 0,
        nrx2: 0,
        freq: 0,
        length_enable: false,
        duty_pos: 0,
        timer: 0,
        length: 0,
        env_vol: 0,
        env_timer: 0,
        sweep_timer: 0,
        sweep_shadow: 0,
        sweep_enabled: false,
    }
}

pub open spec fn pulse_dac(p: Pulse) -> bool {
    p.nrx2 & 0xF8 != 0
}

/// One T-cycle of the pulse frequency timer.
pub open spec fn pulse_ticked(p: Pulse) -> Pulse {
    let t = p.timer - 1;
    if t <= 0 {
        Pulse { timer: (t + (2048 - p.freq) * 4) as i32, duty_pos: ((p.duty_pos + 1) as u8) & 7, ..p }
    } else {
        Pulse { timer: t as i32, ..p }
    }
}

pub open spec fn pulse_output(p: Pulse) -> u8 {
    if !p.enabled || !pulse_dac(p) {
        0
    } else if (duty_pattern(p.nrx1 >> 6u8) >> ((7 - p.duty_pos) as u8)) & 1 == 1 {
        p.env_vol
    } else {
        0
    }
}

pub open spec fn pulse_length_ticked(p: Pulse) -> Pulse {
    let (l, e) = length_step(p.length_enable, p.length, p.enabled);
    Pulse { length: l, enabled: e, ..p }
}

pub open spec fn pulse_envelope_ticked(p: Pulse) -> Pulse {
    let (v, t) = envelope_step(p.nrx2, p.env_vol, p.env_timer);
    Pulse { env_vol: v, env_timer: t, ..p }
}

/// The next swept frequency (may exceed 11 bits).
pub open spec fn sweep_next(p: Pulse) -> u16 {
    let delta = p.sweep_shadow >> (p.nrx0 & 7);
    if p.nrx0 & 8 != 0 {
        (p.sweep_shadow - delta) as u16
    } else {
        (p.sweep_shadow + delta) as u16
    }
}

/// The overflow check: a swept frequency past 2047 silences the channel.
pub open spec fn sweep_checked(p: Pulse) -> Pulse {
    if sweep_next(p) > 2047 {
        Pulse { enabled: false, ..p }
    } else {
        p
    }
}

pub open spec fn sweep_ticked(p: Pulse) -> Pulse {
    if !p.sweep_enabled || !p.enabled {
        p
    } else {
        let st: u8 = if p.sweep_timer > 0 { (p.sweep_timer - 1) as u8 } else { 0 };
        if st != 0 {
            Pulse { sweep_timer: st, ..p }
        } else {
            let period = (p.nrx0 >> 4u8) & 7;
            let p1 = Pulse { sweep_timer: if period == 0 { 8 } else { period }, ..p };
            if period == 0 {
                p1
            } else {
                let next = sweep_next(p1);
                let p2 = sweep_checked(p1);
                if next <= 2047 && p1.nrx0 & 7 != 0 {
                    sweep_checked(Pulse { sweep_shadow: next, freq: next, ..p2 })
                } else {
                    p2
                }
            }
        }
    }
}

pub open spec fn pulse_triggered(p: Pulse) -> Pulse {
    let p1 = Pulse {
        enabled: pulse_dac(p),
        length: if p.length == 0 { 64 } else { p.length },
        timer: ((2048 - p.freq) * 4) as i32,
        env_vol: p.nrx2 >> 4u8,
        env_timer: if p.nrx2 & 7 == 0 { 8 } else { p.nrx2 & 7 },
        ..p
    };
    if p.has_sweep {
        let period = (p.nrx0 >> 4u8) & 7;
        let p2 = Pulse {
            sweep_shadow: p.freq,
            sweep_timer: if period == 0 { 8 } else { period },
            sweep_enabled: period != 0 || p.nrx0 & 7 != 0,
            ..p1
        };
        if p.nrx0 & 7 != 0 { sweep_checked(p2) } else { p2 }
    } else {
        p1
    }
}

proof fn lemma_shift_bounds(x: u16, s: u8)
    requires
        s <= 7,
    ensures
        x >> s <= x,
{
    assert(x >> s <= x) by (bit_vector);
}

impl Pulse {
    pub(crate) fn init(has_sweep: bool) -> (p: Pulse)
        ensures
            p == pulse_init(has_sweep),
            pulse_wf(p),
    {
        Pulse {
            has_sweep,
            enabled: false,
            nrx0: 0,
            nrx1: 0,
            nrx2: 0,
            freq: 0,
            length_enable: false,
            duty_pos: 0,
            timer: 0,
            length: 0,
            env_vol: 0,
            env_timer: 0,
            sweep_timer: 0,
            sweep_shadow: 0,
            sweep_enabled: false,
        }
    }

    pub(crate) fn dac_on(&self) -> (r: bool)
        ensures
            r == pulse_dac(*self),
    {
        self.nrx2 & 0xF8 != 0
    }

    pub(crate) fn tick(&mut self)
        requires
            pulse_wf(*old(self)),
        ensures
            *final(self) == pulse_ticked(*old(self)),
            pulse_wf(*final(self)),
    {
        self.timer = self.timer - 1;
        if self.timer <= 0 {
            self.timer = self.timer + (2048 - self.freq as i32) * 4;
            proof { lemma_u8_bits((self.duty_pos + 1) as u8); }
            self.duty_pos = (self.duty_pos + 1) & 7;
        }
    }

    pub(crate) fn output(&self) -> (r: u8)
        requires
            pulse_wf(*self),
        ensures
            r == pulse_output(*self),
    {
        if !self.enabled || !self.dac_on() {
            return 0;
        }
        let sel = self.nrx1 >> 6;
        let duty: u8 = if sel == 0 {
            0x01
        } else if sel == 1 {
            0x81
        } else if sel == 2 {
            0x87
        } else {
            0x7E
        };
        if (duty >> (7 - self.duty_pos)) & 1 == 1 {
            self.env_vol
        } else {
            0
        }
    }

    pub(crate) fn tick_length(&mut self)
        ensures
            *final(self) == pulse_length_ticked(*old(self)),
    {
        if self.length_enable && self.length > 0 {
            self.length = self.length - 1;
            if self.length == 0 {
                self.enabled = false;
            }
        }
    }

    pub(crate) fn tick_envelope(&mut self)
        requires
            pulse_wf(*old(self)),
        ensures
            *final(self) == pulse_envelope_ticked(*old(self)),
            pulse_wf(*final(self)),
    {
        let period = self.nrx2 & 7;
        if period == 0 {
            return;
        }
        self.env_timer = if self.env_timer > 0 { self.env_timer - 1 } else { 0 };
        if self.env_timer == 0 {
            self.env_timer = period;
            if self.nrx2 & 8 != 0 {
                self.env_vol = if self.env_vol + 1 < 15 { self.env_vol + 1 } else { 15 };
            } else {
                self.env_vol = if self.env_vol > 0 { self.env_vol - 1 } else { 0 };
            }
        }
    }

    /// Returns the next swept frequency; disables the channel on overflow.
    pub(crate) fn sweep_calc(&mut self) -> (next: u16)
        requires
            pulse_wf(*old(self)),
        ensures
            next == sweep_next(*old(self)),
            *final(self) == sweep_checked(*old(self)),
    {
        let shift = self.nrx0 & 7;
        proof {
            lemma_u8_bits(self.nrx0);
            lemma_shift_bounds(self.sweep_shadow, shift);
        }
        let delta = self.sweep_shadow >> shift;
        let next = if self.nrx0 & 8 != 0 {
            self.sweep_shadow - delta
        } else {
            self.sweep_shadow + delta
        };
        if next > 2047 {
            self.enabled = false;
        }
        next
    }

    pub(crate) fn tick_sweep(&mut self)
        requires
            pulse_wf(*old(self)),
        ensures
            *final(self) == sweep_ticked(*old(self)),
            pulse_wf(*final(self)),
    {
        if !self.sweep_enabled || !self.enabled {
            return;
        }
        self.sweep_timer = if self.sweep_timer > 0 { self.sweep_timer - 1 } else { 0 };
        if self.sweep_timer == 0 {
            let period = (self.nrx0 >> 4) & 7;
            self.sweep_timer = if period == 0 { 8 } else { period };
            if period != 0 {
                let next = self.sweep_calc();
                if next <= 2047 && self.nrx0 & 7 != 0 {
                    self.sweep_shadow = next;
                    self.freq = next;
                    self.sweep_calc();
                }
            }
        }
    }

    pub(crate) fn trigger(&mut self)
        requires
            pulse_wf(*old(self)),
        ensures
            *final(self) == pulse_triggered(*old(self)),
            pulse_wf(*final(self)),
    {
        self.enabled = self.dac_on();
        if self.length == 0 {
            self.length = 64;
        }
        self.timer = (2048 - self.freq as i32) * 4;
        self.env_vol = self.nrx2 >> 4;
        self.env_timer = if self.nrx2 & 7 == 0 { 8 } else { self.nrx2 & 7 };
        proof { lemma_u8_bits(self.nrx2); }
        if self.has_sweep {
            self.sweep_shadow = self.freq;
            let period = (self.nrx0 >> 4) & 7;
            self.sweep_timer = if period == 0 { 8 } else { period };
            self.sweep_enabled = period != 0 || self.nrx0 & 7 != 0;
            if self.nrx0 & 7 != 0 {
                self.sweep_calc();
            }
        }
    }
}

// ------------------------------------------------------------------ wave

pub struct WaveCh {
    pub enabled: bool,
    /// NR30 bit 7.
    pub dac: bool,
    pub nr32: u8,
    pub freq: u16,
    pub length_enable: bool,
    /// 0..=256.
    pub length: u16,
    pub timer: i32,
    /// Sample position in wave RAM, 0..32.
    pub pos: u8,
}

pub open spec fn wave_wf(w: WaveCh) -> bool {
    &&& w.freq <= 2047
    &&& w.pos <= 31
    &&& -timer_bound() <= w.timer <= timer_bound()
}

pub open spec fn wave_init() -> WaveCh {
    WaveCh {
        enabled: false,
        dac: false,
        nr32: 0,
        freq: 0,
        length_enable: false,
        length: 0,
        timer: 0,
        pos: 0,
    }
}

pub open spec fn wave_ticked(w: WaveCh) -> WaveCh {
    let t = w.timer - 1;
    if t <= 0 {
        WaveCh { timer: (t + (2048 - w.freq) * 2) as i32, pos: ((w.pos + 1) as u8) & 31, ..w }
    } else {
        WaveCh { timer: t as i32, ..w }
    }
}

/// The 4-bit sample at the current position, shifted by the NR32 volume.
pub open spec fn wave_output(w: WaveCh, ram: Seq<u8>) -> u8 {
    if !w.enabled || !w.dac {
        0
    } else {
        let byte = ram[(w.pos / 2) as int];
        let nibble: u8 = if w.pos & 1 == 0 { byte >> 4u8 } else { byte & 0x0F };
        let vol = (w.nr32 >> 5u8) & 3;
        if vol == 0 {
            0
        } else if vol == 1 {
            nibble
        } else if vol == 2 {
            nibble >> 1u8
        } else {
            nibble >> 2u8
        }
    }
}

pub open spec fn wave_length_ticked(w: WaveCh) -> WaveCh {
    let (l, e) = length_step(w.length_enable, w.length, w.enabled);
    WaveCh { length: l, enabled: e, ..w }
}

pub open spec fn wave_triggered(w: WaveCh) -> WaveCh {
    WaveCh {
        enabled: w.dac,
        length: if w.length == 0 { 256 } else { w.length },
        timer: ((2048 - w.freq) * 2) as i32,
        pos: 0,
        ..w
    }
}

impl WaveCh {
    pub(crate) fn init() -> (w: WaveCh)
        ensures
            w == wave_init(),
    {
        WaveCh {
            enabled: false,
            dac: false,
            nr32: 0,
            freq: 0,
            length_enable: false,
            length: 0,
            timer: 0,
            pos: 0,
        }
    }

    pub(crate) fn tick(&mut self)
        requires
            wave_wf(*old(self)),
        ensures
            *final(self) == wave_ticked(*old(self)),
            wave_wf(*final(self)),
    {
        self.timer = self.timer - 1;
        if self.timer <= 0 {
            self.timer = self.timer + (2048 - self.freq as i32) * 2;
            proof { lemma_u8_bits((self.pos + 1) as u8); }
            self.pos = (self.pos + 1) & 31;
        }
    }

    /// The current sample from `wave_ram` (16 bytes).
    pub fn output(&self, wave_ram: &Vec<u8>) -> (r: u8)
        requires
            wave_wf(*self),
            wave_ram@.len() == 16,
        ensures
            r == wave_output(*self, wave_ram@),
    {
        if !self.enabled || !self.dac {
            return 0;
        }
        let byte = wave_ram[(self.pos / 2) as usize];
        let nibble = if self.pos & 1 == 0 { byte >> 4 } else { byte & 0x0F };
        let vol = (self.nr32 >> 5) & 3;
        if vol == 0 {
            0
        } else if vol == 1 {
            nibble
        } else if vol == 2 {
            nibble >> 1
        } else {
            nibble >> 2
        }
    }

    pub(crate) fn tick_length(&mut self)
        ensures
            *final(self) == wave_length_ticked(*old(self)),
    {
        if self.length_enable && self.length > 0 {
            self.length = self.length - 1;
            if self.length == 0 {
                self.enabled = false;
            }
        }
    }

    pub(crate) fn trigger(&mut self)
        requires
            wave_wf(*old(self)),
        ensures
            *final(self) == wave_triggered(*old(self)),
            wave_wf(*final(self)),
    {
        self.enabled = self.dac;
        if self.length == 0 {
            self.length = 256;
        }
        self.timer = (2048 - self.freq as i32) * 2;
        self.pos = 0;
    }
}

// ------------------------------------------------------------------ noise

pub struct Noise {
    pub enabled: bool,
    pub nr42: u8,
    pub nr43: u8,
    pub length_enable: bool,
    pub length: u16,
    pub timer: i32,
    pub lfsr: u16,
    pub env_vol: u8,
    pub env_timer: u8,
}

pub open spec fn noise_wf(n: Noise) -> bool {
    &&& -timer_bound() <= n.timer <= timer_bound()
    &&& n.env_vol <= 15
}

pub open spec fn noise_init() -> Noise {
    Noise {
        enabled: false,
        nr42: 0,
        nr43: 0,
        length_enable: false,
        length: 0,
        timer: 0,
        lfsr: 0,
        env_vol: 0,
        env_timer: 0,
    }
}

pub open spec fn noise_dac(n: Noise) -> bool {
    n.nr42 & 0xF8 != 0
}

/// Noise timer period: the divisor shifted left by NR43 bits 4-7.
pub open spec fn noise_period(nr43: u8) -> u32 {
    noise_divisor(nr43 & 7) << (nr43 >> 4u8)
}

/// The linear-feedback shift register after one clock: bit 0 XOR bit 1 is
/// fed into bit 14, and also into bit 6 in 7-bit mode (NR43 bit 3).
pub open spec fn lfsr_next(lfsr: u16, nr43: u8) -> u16 {
    let bit = (lfsr ^ (lfsr >> 1u16)) & 1;
    let l = (lfsr >> 1u16) | (bit << 14u16);
    if nr43 & 8 != 0 { (l & 0xFFBF) | (bit << 6u16) } else { l }
}

pub open spec fn noise_ticked(n: Noise) -> Noise {
    let t = n.timer - 1;
    if t <= 0 {
        Noise { timer: (t + noise_period(n.nr43)) as i32, lfsr: lfsr_next(n.lfsr, n.nr43), ..n }
    } else {
        Noise { timer: t as i32, ..n }
    }
}

pub open spec fn noise_output(n: Noise) -> u8 {
    if !n.enabled || !noise_dac(n) {
        0
    } else if n.lfsr & 1 == 0 {
        n.env_vol
    } else {
        0
    }
}

pub open spec fn noise_length_ticked(n: Noise) -> Noise {
    let (l, e) = length_step(n.length_enable, n.length, n.enabled);
    Noise { length: l, enabled: e, ..n }
}

pub open spec fn noise_envelope_ticked(n: Noise) -> Noise {
    let (v, t) = envelope_step(n.nr42, n.env_vol, n.env_timer);
    Noise { env_vol: v, env_timer: t, ..n }
}

pub open spec fn noise_triggered(n: Noise) -> Noise {
    Noise {
        enabled: noise_dac(n),
        length: if n.length == 0 { 64 } else { n.length },
        timer: noise_period(n.nr43) as i32,
        lfsr: 0x7FFF,
        env_vol: n.nr42 >> 4u8,
        env_timer: if n.nr42 & 7 == 0 { 8 } else { n.nr42 & 7 },
        ..n
    }
}

proof fn lemma_noise_period(nr43: u8)
    ensures
        8 <= noise_period(nr43) <= 3670016,
{
    let i = nr43 & 7;
    let s = nr43 >> 4u8;
    lemma_u8_bits(nr43);
    let d = noise_divisor(i);
    assert(8 <= d <= 112);
    assert(8 <= (d << s) <= 3670016u32) by (bit_vector)
        requires 8 <= d <= 112, s <= 15;
}

impl Noise {
    pub(crate) fn init() -> (n: Noise)
        ensures
            n == noise_init(),
    {
        Noise {
            enabled: false,
            nr42: 0,
            nr43: 0,
            length_enable: false,
            length: 0,
            timer: 0,
            lfsr: 0,
            env_vol: 0,
            env_timer: 0,
        }
    }

    pub(crate) fn dac_on(&self) -> (r: bool)
        ensures
            r == noise_dac(*self),
    {
        self.nr42 & 0xF8 != 0
    }

    pub(crate) fn period(&self) -> (p: i32)
        ensures
            p == noise_period(self.nr43),
            8 <= p <= 3670016,
    {
        proof {
            lemma_noise_period(self.nr43);
            lemma_u8_bits(self.nr43);
        }
        let i = self.nr43 & 7;
        let d: u32 = if i == 0 { 8 } else { 16 * i as u32 };
        (d << (self.nr43 >> 4)) as i32
    }

    pub(crate) fn tick(&mut self)
        requires
            noise_wf(*old(self)),
        ensures
            *final(self) == noise_ticked(*old(self)),
            noise_wf(*final(self)),
    {
        self.timer = self.timer - 1;
        if self.timer <= 0 {
            self.timer = self.timer + self.period();
            let bit = (self.lfsr ^ (self.lfsr >> 1)) & 1;
            self.lfsr = (self.lfsr >> 1) | (bit << 14);
            if self.nr43 & 8 != 0 {
                self.lfsr = (self.lfsr & 0xFFBF) | (bit << 6);
            }
        }
    }

    pub(crate) fn output(&self) -> (r: u8)
        ensures
            r == noise_output(*self),
    {
        if !self.enabled || !self.dac_on() {
            return 0;
        }
        if self.lfsr & 1 == 0 {
            self.env_vol
        } else {
            0
        }
    }

    pub(crate) fn tick_length(&mut self)
        ensures
            *final(self) == noise_length_ticked(*old(self)),
    {
        if self.length_enable && self.length > 0 {
            self.length = self.length - 1;
            if self.length == 0 {
                self.enabled = false;
            }
        }
    }

    pub(crate) fn tick_envelope(&mut self)
        requires
            noise_wf(*old(self)),
        ensures
            *final(self) == noise_envelope_ticked(*old(self)),
            noise_wf(*final(self)),
    {
        let period = self.nr42 & 7;
        if period == 0 {
            return;
        }
        self.env_timer = if self.env_timer > 0 { self.env_timer - 1 } else { 0 };
        if self.env_timer == 0 {
            self.env_timer = period;
            if self.nr42 & 8 != 0 {
                self.env_vol = if self.env_vol + 1 < 15 { self.env_vol + 1 } else { 15 };
            } else {
                self.env_vol = if self.env_vol > 0 { self.env_vol - 1 } else { 0 };
            }
        }
    }

    pub(crate) fn trigger(&mut self)
        requires
            noise_wf(*old(self)),
        ensures
            *final(self) == noise_triggered(*old(self)),
            noise_wf(*final(self)),
    {
        self.enabled = self.dac_on();
        if self.length == 0 {
            self.length = 64;
        }
        self.timer = self.period();
        self.lfsr = 0x7FFF;
        proof { lemma_u8_bits(self.nr42); }
        self.env_vol = self.nr42 >> 4;
        self.env_timer = if self.nr42 & 7 == 0 { 8 } else { self.nr42 & 7 };
    }
}

// ------------------------------------------------------------------ register writes

/// Frequency after a low-byte write (NRx3).
pub open spec fn freq_low(freq: u16, v: u8) -> u16 {
    (freq & 0x700) | (v as u16)
}

/// Frequency after a high-bits write (NRx4 bits 0-2).
pub open spec fn freq_high(freq: u16, v: u8) -> u16 {
    (freq & 0xFF) | (((v as u16) & 7) << 8u16)
}

proof fn lemma_freq_bounds(freq: u16, v: u8)
    by (bit_vector)
    ensures
        (freq & 0x700) | (v as u16) <= 2047,
        (freq & 0xFF) | (((v as u16) & 7) << 8u16) <= 2047,
{
}

/// Effect on a pulse channel of writing its register `reg` (0 = NRx0 .. 4 = NRx4).
pub open spec fn pulse_written(p: Pulse, reg: u16, v: u8) -> Pulse {
    if reg == 0 {
        Pulse { nrx0: v, ..p }
    } else if reg == 1 {
        Pulse { nrx1: v, length: (64 - (v & 0x3F)) as u16, ..p }
    } else if reg == 2 {
        let q = Pulse { nrx2: v, ..p };
        if !pulse_dac(q) { Pulse { enabled: false, ..q } } else { q }
    } else if reg == 3 {
        Pulse { freq: freq_low(p.freq, v), ..p }
    } else {
        let q = Pulse { freq: freq_high(p.freq, v), length_enable: v & 0x40 != 0, ..p };
        if v & 0x80 != 0 { pulse_triggered(q) } else { q }
    }
}

/// Effect on the wave channel of writing its register `reg` (0 = NR30 .. 4 = NR34).
pub open spec fn wave_written(w: WaveCh, reg: u16, v: u8) -> WaveCh {
    if reg == 0 {
        let q = WaveCh { dac: v & 0x80 != 0, ..w };
        if !q.dac { WaveCh { enabled: false, ..q } } else { q }
    } else if reg == 1 {
        WaveCh { length: (256 - v) as u16, ..w }
    } else if reg == 2 {
        WaveCh { nr32: v, ..w }
    } else if reg == 3 {
        WaveCh { freq: freq_low(w.freq, v), ..w }
    } else {
        let q = WaveCh { freq: freq_high(w.freq, v), length_enable: v & 0x40 != 0, ..w };
        if v & 0x80 != 0 { wave_triggered(q) } else { q }
    }
}

/// Effect on the noise channel of writing its register `reg` (0 = NR41 .. 3 = NR44).
pub open spec fn noise_written(n: Noise, reg: u16, v: u8) -> Noise {
    if reg == 0 {
        Noise { length: (64 - (v & 0x3F)) as u16, ..n }
    } else if reg == 1 {
        let q = Noise { nr42: v, ..n };
        if !noise_dac(q) { Noise { enabled: false, ..q } } else { q }
    } else if reg == 2 {
        Noise { nr43: v, ..n }
    } else {
        let q = Noise { length_enable: v & 0x40 != 0, ..n };
        if v & 0x80 != 0 { noise_triggered(q) } else { q }
    }
}

impl Pulse {
    pub(crate) fn write_reg(&mut self, reg: u16, v: u8)
        requires
            pulse_wf(*old(self)),
        ensures
            *final(self) == pulse_written(*old(self), reg, v),
            pulse_wf(*final(self)),
    {
        proof { lemma_freq_bounds(self.freq, v); lemma_u8_bits(v); }
        if reg == 0 {
            self.nrx0 = v;
        } else if reg == 1 {
            self.nrx1 = v;
            self.length = 64 - (v & 0x3F) as u16;
        } else if reg == 2 {
            self.nrx2 = v;
            if !self.dac_on() {
                self.enabled = false;
            }
        } else if reg == 3 {
            self.freq = (self.freq & 0x700) | v as u16;
        } else {
            self.freq = (self.freq & 0xFF) | ((v as u16 & 7) << 8);
            self.length_enable = v & 0x40 != 0;
            if v & 0x80 != 0 {
                self.trigger();
            }
        }
    }
}

impl WaveCh {
    pub(crate) fn write_reg(&mut self, reg: u16, v: u8)
        requires
            wave_wf(*old(self)),
        ensures
            *final(self) == wave_written(*old(self), reg, v),
            wave_wf(*final(self)),
    {
        proof { lemma_freq_bounds(self.freq, v); }
        if reg == 0 {
            self.dac = v & 0x80 != 0;
            if !self.dac {
                self.enabled = false;
            }
        } else if reg == 1 {
            self.length = 256 - v as u16;
        } else if reg == 2 {
            self.nr32 = v;
        } else if reg == 3 {
            self.freq = (self.freq & 0x700) | v as u16;
        } else {
            self.freq = (self.freq & 0xFF) | ((v as u16 & 7) << 8);
            self.length_enable = v & 0x40 != 0;
            if v & 0x80 != 0 {
                self.trigger();
            }
        }
    }
}

impl Noise {
    pub(crate) fn write_reg(&mut self, reg: u16, v: u8)
        requires
            noise_wf(*old(self)),
        ensures
            *final(self) == noise_written(*old(self), reg, v),
            noise_wf(*final(self)),
    {
        proof { lemma_u8_bits(v); }
        if reg == 0 {
            self.length = 64 - (v & 0x3F) as u16;
        } else if reg == 1 {
            self.nr42 = v;
            if !self.dac_on() {
                self.enabled = false;
            }
        } else if reg == 2 {
            self.nr43 = v;
        } else {
            self.length_enable = v & 0x40 != 0;
            if v & 0x80 != 0 {
                self.trigger();
            }
        }
    }
}

// ------------------------------------------------------------------ the unit

pub struct ApuView {
    pub on: bool,
    pub seq_timer: u32,
    pub seq_step: u8,
    pub ch1: Pulse,
    pub ch2: Pulse,
    pub ch3: WaveCh,
    pub ch4: Noise,
    pub nr50: u8,
    pub nr51: u8,
    pub wave_ram: Seq<u8>,
    pub sample_acc: u32,
    pub sample_rate: u32,
    pub samples: Seq<(i32, i32)>,
}

pub open spec fn apu_wf(a: ApuView) -> bool {
    &&& a.wave_ram.len() == 16
    &&& a.seq_timer < SEQ_PERIOD
    &&& a.seq_step <= 7
    &&& pulse_wf(a.ch1)
    &&& pulse_wf(a.ch2)
    &&& wave_wf(a.ch3)
    &&& noise_wf(a.ch4)
    &&& 1 <= a.sample_rate <= CLOCK_HZ
    &&& a.sample_acc < CLOCK_HZ
}

/// The post-boot state: powered, with channel 1 left configured by the boot chime.
pub open spec fn apu_init() -> ApuView {
    ApuView {
        on: true,
        seq_timer: 0,
        seq_step: 0,
        ch1: Pulse { nrx1: 0xBF, nrx2: 0xF3, ..pulse_init(true) },
        ch2: pulse_init(false),
        ch3: wave_init(),
        ch4: noise_init(),
        nr50: 0x77,
        nr51: 0xF3,
        wave_ram: Seq::new(16, |_i: int| 0u8),
        sample_acc: 0,
        sample_rate: DEFAULT_RATE,
        samples: Seq::empty(),
    }
}

/// Powering off clears every register; wave RAM and the produced samples survive.
pub open spec fn apu_powered_off(a: ApuView) -> ApuView {
    ApuView {
        on: false,
        seq_timer: 0,
        seq_step: 0,
        ch1: pulse_init(true),
        ch2: pulse_init(false),
        ch3: wave_init(),
        ch4: noise_init(),
        nr50: 0,
        nr51: 0,
        wave_ram: a.wave_ram,
        sample_acc: 0,
        sample_rate: DEFAULT_RATE,
        samples: a.samples,
    }
}

pub open spec fn lengths_ticked(a: ApuView) -> ApuView {
    ApuView {
        ch1: pulse_length_ticked(a.ch1),
        ch2: pulse_length_ticked(a.ch2),
        ch3: wave_length_ticked(a.ch3),
        ch4: noise_length_ticked(a.ch4),
        ..a
    }
}

/// One frame-sequencer step: lengths on even steps, the sweep on steps 2 and
/// 6, envelopes on step 7.
pub open spec fn sequencer_clocked(a: ApuView) -> ApuView {
    let s = a.seq_step;
    let a1 = if s == 0 || s == 2 || s == 4 || s == 6 { lengths_ticked(a) } else { a };
    let a2 = if s == 2 || s == 6 { ApuView { ch1: sweep_ticked(a1.ch1), ..a1 } } else { a1 };
    let a3 = if s == 7 {
        ApuView {
            ch1: pulse_envelope_ticked(a2.ch1),
            ch2: pulse_envelope_ticked(a2.ch2),
            ch4: noise_envelope_ticked(a2.ch4),
            ..a2
        }
    } else {
        a2
    };
    ApuView { seq_step: ((s + 1) as u8) & 7, ..a3 }
}

/// `o` if NR51 routes it (bit `bit` set), else nothing.
pub open spec fn routed(nr51: u8, bit: u8, o: int) -> int {
    if (nr51 >> bit) & 1 == 1 {
        o
    } else {
        0
    }
}

/// The four channel levels the mixer sees.
pub open spec fn channel_levels(a: ApuView) -> (int, int, int, int) {
    (
        analog(pulse_output(a.ch1), pulse_dac(a.ch1) && a.ch1.enabled),
        analog(pulse_output(a.ch2), pulse_dac(a.ch2) && a.ch2.enabled),
        analog(wave_output(a.ch3, a.wave_ram), a.ch3.dac && a.ch3.enabled),
        analog(noise_output(a.ch4), noise_dac(a.ch4) && a.ch4.enabled),
    )
}

/// Mixes four channel levels: NR51 routes each to the left (bits 4-7) and
/// right (bits 0-3) outputs, and NR50 scales each side by 1..=8.
pub open spec fn mix_levels(o: (int, int, int, int), nr50: u8, nr51: u8) -> (i32, i32) {
    let l = routed(nr51, 4, o.0) + routed(nr51, 5, o.1) + routed(nr51, 6, o.2) + routed(nr51, 7, o.3);
    let r = routed(nr51, 0, o.0) + routed(nr51, 1, o.1) + routed(nr51, 2, o.2) + routed(nr51, 3, o.3);
    ((l * (1 + ((nr50 >> 4u8) & 7))) as i32, (r * (1 + (nr50 & 7))) as i32)
}

/// The stereo sample for the current channel outputs, in units of 1/480.
pub open spec fn mix_sample(a: ApuView) -> (i32, i32) {
    if !a.on {
        (0, 0)
    } else {
        mix_levels(channel_levels(a), a.nr50, a.nr51)
    }
}

/// The channel timers and the frame sequencer for one T-cycle.
pub open spec fn channels_clocked(a: ApuView) -> ApuView {
    let c = ApuView {
        ch1: pulse_ticked(a.ch1),
        ch2: pulse_ticked(a.ch2),
        ch3: wave_ticked(a.ch3),
        ch4: noise_ticked(a.ch4),
        seq_timer: (a.seq_timer + 1) as u32,
        ..a
    };
    if c.seq_timer == SEQ_PERIOD {
        sequencer_clocked(ApuView { seq_timer: 0, ..c })
    } else {
        c
    }
}

/// The sample clock for one T-cycle: a sample is emitted each time it wraps.
pub open spec fn sample_clocked(a: ApuView) -> ApuView {
    let acc = a.sample_acc + a.sample_rate;
    if acc >= CLOCK_HZ {
        ApuView { sample_acc: (acc - CLOCK_HZ) as u32, samples: a.samples.push(mix_sample(a)), ..a }
    } else {
        ApuView { sample_acc: acc as u32, ..a }
    }
}

/// One T-cycle: channel timers and the frame sequencer while powered, then
/// the sample clock.
pub open spec fn apu_step(a: ApuView) -> ApuView {
    sample_clocked(if a.on { channels_clocked(a) } else { a })
}

/// `n` T-cycles.
pub open spec fn apu_run(a: ApuView, n: nat) -> ApuView
    decreases n,
{
    if n == 0 {
        a
    } else {
        apu_step(apu_run(a, (n - 1) as nat))
    }
}

/// NR52 bits 0-3: which channels are playing.
pub open spec fn status_bits(a: ApuView) -> u8 {
    ((if a.ch1.enabled { 1int } else { 0 }) + (if a.ch2.enabled { 2int } else { 0 }) + (
    if a.ch3.enabled {
        4int
    } else {
        0
    }) + (if a.ch4.enabled { 8int } else { 0 })) as u8
}

/// Bits that read back as 1 in register `addr` (0xFF10..=0xFF26).
pub open spec fn read_mask(addr: u16) -> u8 {
    if addr == 0xFF10 {
        0x80
    } else if addr == 0xFF11 || addr == 0xFF16 {
        0x3F
    } else if addr == 0xFF12 || addr == 0xFF17 || addr == 0xFF21 || addr == 0xFF22 || addr
        == 0xFF24 || addr == 0xFF25 {
        0x00
    } else if addr == 0xFF14 || addr == 0xFF19 || addr == 0xFF1E || addr == 0xFF23 {
        0xBF
    } else if addr == 0xFF1A {
        0x7F
    } else if addr == 0xFF1C {
        0x9F
    } else if addr == 0xFF26 {
        0x70
    } else {
        0xFF
    }
}

/// The stored bits of register `addr` (0 where nothing is stored).
pub open spec fn reg_bits(a: ApuView, addr: u16) -> u8 {
    if addr == 0xFF10 {
        a.ch1.nrx0
    } else if addr == 0xFF11 {
        a.ch1.nrx1
    } else if addr == 0xFF12 {
        a.ch1.nrx2
    } else if addr == 0xFF14 {
        if a.ch1.length_enable { 0x40 } else { 0 }
    } else if addr == 0xFF16 {
        a.ch2.nrx1
    } else if addr == 0xFF17 {
        a.ch2.nrx2
    } else if addr == 0xFF19 {
        if a.ch2.length_enable { 0x40 } else { 0 }
    } else if addr == 0xFF1A {
        if a.ch3.dac { 0x80 } else { 0 }
    } else if addr == 0xFF1C {
        a.ch3.nr32
    } else if addr == 0xFF1E {
        if a.ch3.length_enable { 0x40 } else { 0 }
    } else if addr == 0xFF21 {
        a.ch4.nr42
    } else if addr == 0xFF22 {
        a.ch4.nr43
    } else if addr == 0xFF23 {
        if a.ch4.length_enable { 0x40 } else { 0 }
    } else if addr == 0xFF24 {
        a.nr50
    } else if addr == 0xFF25 {
        a.nr51
    } else if addr == 0xFF26 {
        (if a.on { 0x80u8 } else { 0u8 }) | status_bits(a)
    } else {
        0
    }
}

/// Addresses the sound registers answer: NR10-NR52 and wave RAM.
pub open spec fn apu_readable(addr: u16) -> bool {
    (0xFF10 <= addr <= 0xFF26) || (0xFF30 <= addr <= 0xFF3F)
}

pub open spec fn apu_read_value(a: ApuView, addr: u16) -> u8 {
    if 0xFF30 <= addr <= 0xFF3F {
        a.wave_ram[addr - 0xFF30]
    } else {
        reg_bits(a, addr) | read_mask(addr)
    }
}

pub open spec fn apu_written(a: ApuView, addr: u16, v: u8) -> ApuView {
    if 0xFF30 <= addr <= 0xFF3F {
        ApuView { wave_ram: a.wave_ram.update(addr - 0xFF30, v), ..a }
    } else if !a.on && addr != 0xFF26 {
        a
    } else if addr == 0xFF10 || (0xFF11 <= addr <= 0xFF14) {
        ApuView { ch1: pulse_written(a.ch1, (addr - 0xFF10) as u16, v), ..a }
    } else if 0xFF16 <= addr <= 0xFF19 {
        ApuView { ch2: pulse_written(a.ch2, (addr - 0xFF15) as u16, v), ..a }
    } else if 0xFF1A <= addr <= 0xFF1E {
        ApuView { ch3: wave_written(a.ch3, (addr - 0xFF1A) as u16, v), ..a }
    } else if 0xFF20 <= addr <= 0xFF23 {
        ApuView { ch4: noise_written(a.ch4, (addr - 0xFF20) as u16, v), ..a }
    } else if addr == 0xFF24 {
        ApuView { nr50: v, ..a }
    } else if addr == 0xFF25 {
        ApuView { nr51: v, ..a }
    } else if addr == 0xFF26 {
        let on = v & 0x80 != 0;
        if a.on && !on {
            apu_powered_off(a)
        } else if !a.on && on {
            ApuView { on: true, seq_step: 0, seq_timer: 0, ..a }
        } else {
            a
        }
    } else {
        a
    }
}

pub struct Apu {
    pub on: bool,
    pub seq_timer: u32,
    pub seq_step: u8,
    pub ch1: Pulse,
    pub ch2: Pulse,
    pub ch3: WaveCh,
    pub ch4: Noise,
    pub nr50: u8,
    pub nr51: u8,
    pub wave_ram: Vec<u8>,
    pub sample_acc: u32,
    pub sample_rate: u32,
    /// Stereo samples, (left, right), in units of 1/`SAMPLE_SCALE` of full scale.
    pub samples: Vec<(i32, i32)>,
}

impl View for Apu {
    type V = ApuView;

    closed spec fn view(&self) -> ApuView {
        ApuView {
            on: self.on,
            seq_timer: self.seq_timer,
            seq_step: self.seq_step,
            ch1: self.ch1,
            ch2: self.ch2,
            ch3: self.ch3,
            ch4: self.ch4,
            nr50: self.nr50,
            nr51: self.nr51,
            wave_ram: self.wave_ram@,
            sample_acc: self.sample_acc,
            sample_rate: self.sample_rate,
            samples: self.samples@,
        }
    }
}

impl Apu {
    /// The view is the unit's fields, with the vectors seen as sequences.
    pub proof fn lemma_view_fields(&self)
        ensures
            self@ == (ApuView {
                on: self.on,
                seq_timer: self.seq_timer,
                seq_step: self.seq_step,
                ch1: self.ch1,
                ch2: self.ch2,
                ch3: self.ch3,
                ch4: self.ch4,
                nr50: self.nr50,
                nr51: self.nr51,
                wave_ram: self.wave_ram@,
                sample_acc: self.sample_acc,
                sample_rate: self.sample_rate,
                samples: self.samples@,
            }),
    {
    }
}

fn level(v: u8, dac: bool) -> (r: i32)
    ensures
        r == analog(v, dac),
        -15 <= r <= 495,
{
    if dac {
        2 * v as i32 - 15
    } else {
        0
    }
}

fn route(nr51: u8, bit: u8, o: i32) -> (r: i32)
    requires
        bit < 8,
    ensures
        r == routed(nr51, bit, o as int),
        r == o || r == 0,
{
    if (nr51 >> bit) & 1 == 1 {
        o
    } else {
        0
    }
}

fn mix_of(o1: i32, o2: i32, o3: i32, o4: i32, nr50: u8, nr51: u8) -> (s: (i32, i32))
    requires
        -15 <= o1 <= 495 && -15 <= o2 <= 495 && -15 <= o3 <= 495 && -15 <= o4 <= 495,
    ensures
        s == mix_levels((o1 as int, o2 as int, o3 as int, o4 as int), nr50, nr51),
{
    let l = route(nr51, 4, o1) + route(nr51, 5, o2) + route(nr51, 6, o3) + route(nr51, 7, o4);
    let r = route(nr51, 0, o1) + route(nr51, 1, o2) + route(nr51, 2, o3) + route(nr51, 3, o4);
    let vl = (nr50 >> 4) & 7;
    let vr = nr50 & 7;
    proof {
        lemma_u8_bits(nr50);
        assert(-480 <= l * (1 + vl as int) <= 15840) by (nonlinear_arith)
            requires -60 <= l <= 1980, 0 <= vl <= 7;
        assert(-480 <= r * (1 + vr as int) <= 15840) by (nonlinear_arith)
            requires -60 <= r <= 1980, 0 <= vr <= 7;
    }
    (l * (1 + vl as i32), r * (1 + vr as i32))
}

impl Apu {
    pub fn new() -> (a: Self)
        ensures
            a@ == apu_init(),
            apu_wf(a@),
    {
        let mut ch1 = Pulse::init(true);
        ch1.nrx1 = 0xBF;
        ch1.nrx2 = 0xF3;
        Apu {
            on: true,
            seq_timer: 0,
            seq_step: 0,
            ch1,
            ch2: Pulse::init(false),
            ch3: WaveCh::init(),
            ch4: Noise::init(),
            nr50: 0x77,
            nr51: 0xF3,
            wave_ram: filled(16, 0),
            sample_acc: 0,
            sample_rate: DEFAULT_RATE,
            samples: Vec::new(),
        }
    }

    /// Sets the host sample rate; rates are clamped to 1..=`CLOCK_HZ` (at the
    /// top every T-cycle already produces a sample).
    pub fn set_sample_rate(&mut self, hz: u32)
        ensures
            final(self)@ == (ApuView {
                sample_rate: if hz < 1 { 1 } else if hz > CLOCK_HZ { CLOCK_HZ } else { hz },
                ..old(self)@
            }),
    {
        self.sample_rate = if hz < 1 {
            1
        } else if hz > CLOCK_HZ {
            CLOCK_HZ
        } else {
            hz
        };
    }

    /// Advances `tcycles` T-cycles.
    pub fn tick(&mut self, tcycles: u32)
        requires
            apu_wf(old(self)@),
        ensures
            apu_wf(final(self)@),
            final(self)@ == apu_run(old(self)@, tcycles as nat),
    {
        let ghost a0 = self@;
        let mut i: u32 = 0;
        while i < tcycles
            invariant
                i <= tcycles,
                apu_wf(self@),
                self@ == apu_run(a0, i as nat),
            decreases tcycles - i,
        {
            self.step();
            i = i + 1;
        }
    }

    fn step(&mut self)
        requires
            apu_wf(old(self)@),
        ensures
            apu_wf(final(self)@),
            final(self)@ == apu_step(old(self)@),
    {
        if self.on {
            self.clock_channels();
        }
        self.clock_sample();
    }

    fn clock_channels(&mut self)
        requires
            apu_wf(old(self)@),
        ensures
            apu_wf(final(self)@),
            final(self)@ == channels_clocked(old(self)@),
    {
        self.ch1.tick();
        self.ch2.tick();
        self.ch3.tick();
        self.ch4.tick();
        self.seq_timer = self.seq_timer + 1;
        if self.seq_timer == SEQ_PERIOD {
            self.seq_timer = 0;
            self.clock_sequencer();
        }
    }

    fn clock_sample(&mut self)
        requires
            apu_wf(old(self)@),
        ensures
            apu_wf(final(self)@),
            final(self)@ == sample_clocked(old(self)@),
    {
        self.sample_acc = self.sample_acc + self.sample_rate;
        if self.sample_acc >= CLOCK_HZ {
            self.sample_acc = self.sample_acc - CLOCK_HZ;
            let s = self.mix();
            self.samples.push(s);
        }
    }

    fn clock_sequencer(&mut self)
        requires
            apu_wf(old(self)@),
        ensures
            apu_wf(final(self)@),
            final(self)@ == sequencer_clocked(old(self)@),
    {
        let s = self.seq_step;
        if s == 0 || s == 2 || s == 4 || s == 6 {
            self.tick_lengths();
        }
        if s == 2 || s == 6 {
            self.ch1.tick_sweep();
        }
        if s == 7 {
            self.ch1.tick_envelope();
            self.ch2.tick_envelope();
            self.ch4.tick_envelope();
        }
        proof { lemma_u8_bits((s + 1) as u8); }
        self.seq_step = (s + 1) & 7;
    }

    fn tick_lengths(&mut self)
        ensures
            final(self)@ == lengths_ticked(old(self)@),
    {
        self.ch1.tick_length();
        self.ch2.tick_length();
        self.ch3.tick_length();
        self.ch4.tick_length();
    }

    /// The four channel levels as the mixer sees them.
    fn levels(&self) -> (o: (i32, i32, i32, i32))
        requires
            apu_wf(self@),
        ensures
            (o.0 as int, o.1 as int, o.2 as int, o.3 as int) == channel_levels(self@),
            -15 <= o.0 <= 495 && -15 <= o.1 <= 495 && -15 <= o.2 <= 495 && -15 <= o.3 <= 495,
    {
        let o1 = level(self.ch1.output(), self.ch1.dac_on() && self.ch1.enabled);
        let o2 = level(self.ch2.output(), self.ch2.dac_on() && self.ch2.enabled);
        let o3 = level(self.ch3.output(&self.wave_ram), self.ch3.dac && self.ch3.enabled);
        let o4 = level(self.ch4.output(), self.ch4.dac_on() && self.ch4.enabled);
        (o1, o2, o3, o4)
    }

    fn mix(&self) -> (s: (i32, i32))
        requires
            apu_wf(self@),
        ensures
            s == mix_sample(self@),
    {
        if !self.on {
            return (0, 0);
        }
        let (o1, o2, o3, o4) = self.levels();
        mix_of(o1, o2, o3, o4, self.nr50, self.nr51)
    }

    fn status(&self) -> (s: u8)
        ensures
            s == status_bits(self@),
    {
        (if self.ch1.enabled { 1u8 } else { 0 }) + (if self.ch2.enabled { 2u8 } else { 0 }) + (
        if self.ch3.enabled {
            4u8
        } else {
            0
        }) + (if self.ch4.enabled { 8u8 } else { 0 })
    }

    pub fn read(&self, addr: u16) -> (r: u8)
        requires
            apu_wf(self@),
            apu_readable(addr),
        ensures
            r == apu_read_value(self@, addr),
    {
        if 0xFF30 <= addr && addr <= 0xFF3F {
            return self.wave_ram[(addr - 0xFF30) as usize];
        }
        let raw: u8 = if addr == 0xFF10 {
            self.ch1.nrx0
        } else if addr == 0xFF11 {
            self.ch1.nrx1
        } else if addr == 0xFF12 {
            self.ch1.nrx2
        } else if addr == 0xFF14 {
            if self.ch1.length_enable { 0x40 } else { 0 }
        } else if addr == 0xFF16 {
            self.ch2.nrx1
        } else if addr == 0xFF17 {
            self.ch2.nrx2
        } else if addr == 0xFF19 {
            if self.ch2.length_enable { 0x40 } else { 0 }
        } else if addr == 0xFF1A {
            if self.ch3.dac { 0x80 } else { 0 }
        } else if addr == 0xFF1C {
            self.ch3.nr32
        } else if addr == 0xFF1E {
            if self.ch3.length_enable { 0x40 } else { 0 }
        } else if addr == 0xFF21 {
            self.ch4.nr42
        } else if addr == 0xFF22 {
            self.ch4.nr43
        } else if addr == 0xFF23 {
            if self.ch4.length_enable { 0x40 } else { 0 }
        } else if addr == 0xFF24 {
            self.nr50
        } else if addr == 0xFF25 {
            self.nr51
        } else if addr == 0xFF26 {
            (if self.on { 0x80u8 } else { 0u8 }) | self.status()
        } else {
            0
        };
        let mask: u8 = if addr == 0xFF10 {
            0x80
        } else if addr == 0xFF11 || addr == 0xFF16 {
            0x3F
        } else if addr == 0xFF12 || addr == 0xFF17 || addr == 0xFF21 || addr == 0xFF22 || addr
            == 0xFF24 || addr == 0xFF25 {
            0x00
        } else if addr == 0xFF14 || addr == 0xFF19 || addr == 0xFF1E || addr == 0xFF23 {
            0xBF
        } else if addr == 0xFF1A {
            0x7F
        } else if addr == 0xFF1C {
            0x9F
        } else if addr == 0xFF26 {
            0x70
        } else {
            0xFF
        };
        raw | mask
    }

    pub fn write(&mut self, addr: u16, v: u8)
        requires
            apu_wf(old(self)@),
        ensures
            apu_wf(final(self)@),
            final(self)@ == apu_written(old(self)@, addr, v),
    {
        if 0xFF30 <= addr && addr <= 0xFF3F {
            self.wave_ram.set((addr - 0xFF30) as usize, v);
            return;
        }
        if !self.on && addr != 0xFF26 {
            return;  // powered off: registers are read-only
        }
        if addr == 0xFF10 || (0xFF11 <= addr && addr <= 0xFF14) {
            self.ch1.write_reg(addr - 0xFF10, v);
        } else if 0xFF16 <= addr && addr <= 0xFF19 {
            self.ch2.write_reg(addr - 0xFF15, v);
        } else if 0xFF1A <= addr && addr <= 0xFF1E {
            self.ch3.write_reg(addr - 0xFF1A, v);
        } else if 0xFF20 <= addr && addr <= 0xFF23 {
            self.ch4.write_reg(addr - 0xFF20, v);
        } else if addr == 0xFF24 {
            self.nr50 = v;
        } else if addr == 0xFF25 {
            self.nr51 = v;
        } else if addr == 0xFF26 {
            let was_on = self.on;
            self.on = v & 0x80 != 0;
            if was_on && !self.on {
                // power off clears every register (wave RAM survives)
                self.seq_timer = 0;
                self.seq_step = 0;
                self.ch1 = Pulse::init(true);
                self.ch2 = Pulse::init(false);
                self.ch3 = WaveCh::init();
                self.ch4 = Noise::init();
                self.nr50 = 0;
                self.nr51 = 0;
                self.sample_acc = 0;
                self.sample_rate = DEFAULT_RATE;
            }
            if !was_on && self.on {
                self.seq_step = 0;
                self.seq_timer = 0;
            }
        }
    }
}

} // verus!
