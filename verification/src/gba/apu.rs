//! GBA sound: the four Game Boy channels (2 pulse, wave, noise), run at the
//! Game Boy's T-cycle rate through a divide-by-4 prescaler off the 16.78 MHz
//! system clock, plus the two Direct Sound FIFO channels. Registers live at
//! 0x60-0x84 (offsets into the I/O page), wave RAM has two banks, and host
//! samples are integers in units of 1/`SAMPLE_SCALE` of full scale.
use vstd::prelude::*;
use crate::bits::lemma_u8_bits;
use crate::bytes::filled;
use crate::gb::apu::{
    Noise, Pulse, WaveCh, analog, noise_dac, noise_envelope_ticked, noise_init, noise_length_ticked,
    noise_output, noise_ticked, noise_written, noise_wf, pulse_dac, pulse_envelope_ticked,
    pulse_init, pulse_length_ticked, pulse_output, pulse_ticked, pulse_written, pulse_wf,
    routed, sweep_ticked, wave_init, wave_length_ticked, wave_output,
    wave_ticked, wave_written, wave_wf, SEQ_PERIOD,
};

verus! {

/// Cycles per second of the GBA system clock.
pub const GBA_CLOCK: u32 = 16777216;
/// Host sample rate until one is configured.
pub const DEFAULT_RATE: u32 = 48000;
/// Divides a mixed sample into the range of the analog output.
pub const SAMPLE_SCALE: i32 = 30720;
/// Bytes a Direct Sound FIFO holds.
pub const FIFO_CAPACITY: usize = 32;

/// A Direct Sound FIFO: one signed byte is popped per overflow of the timer
/// it follows (sample-and-hold); DMA refills it when it runs low.
pub struct Fifo {
    pub bytes: Vec<u8>,
    pub output: u8,
    pub needs_dma: bool,
}

pub struct FifoView {
    pub bytes: Seq<u8>,
    pub output: u8,
    pub needs_dma: bool,
}

impl View for Fifo {
    type V = FifoView;

    open spec fn view(&self) -> FifoView {
        FifoView { bytes: self.bytes@, output: self.output, needs_dma: self.needs_dma }
    }
}

pub open spec fn fifo_init() -> FifoView {
    FifoView { bytes: Seq::empty(), output: 0, needs_dma: false }
}

/// A push is dropped when the FIFO is full.
pub open spec fn fifo_pushed(f: FifoView, b: u8) -> FifoView {
    if f.bytes.len() < FIFO_CAPACITY {
        FifoView { bytes: f.bytes.push(b), ..f }
    } else {
        f
    }
}

/// One timer overflow: the oldest byte (if any) becomes the output, and a
/// refill is requested once half or less remains.
pub open spec fn fifo_stepped(f: FifoView) -> FifoView {
    let g = if f.bytes.len() > 0 {
        FifoView { output: f.bytes[0], bytes: f.bytes.drop_first(), ..f }
    } else {
        f
    };
    FifoView { needs_dma: g.bytes.len() <= 16, ..g }
}

pub open spec fn fifo_stepped_n(f: FifoView, n: nat) -> FifoView
    decreases n,
{
    if n == 0 {
        f
    } else {
        fifo_stepped(fifo_stepped_n(f, (n - 1) as nat))
    }
}

impl Fifo {
    pub fn new() -> (f: Fifo)
        ensures
            f@ == fifo_init(),
    {
        Fifo { bytes: Vec::new(), output: 0, needs_dma: false }
    }

    pub fn push(&mut self, b: u8)
        ensures
            final(self)@ == fifo_pushed(old(self)@, b),
    {
        if self.bytes.len() < FIFO_CAPACITY {
            self.bytes.push(b);
        }
    }

    pub fn step(&mut self)
        ensures
            final(self)@ == fifo_stepped(old(self)@),
    {
        if self.bytes.len() > 0 {
            self.output = self.bytes.remove(0);
            assert(self@.bytes =~= old(self)@.bytes.drop_first());
        }
        self.needs_dma = self.bytes.len() <= 16;
    }
}

pub struct ApuView {
    pub on: bool,
    pub seq_timer: u32,
    pub seq_step: u8,
    pub prescale: u32,
    pub ch1: Pulse,
    pub ch2: Pulse,
    pub ch3: WaveCh,
    /// Which 16-byte wave bank plays; wave RAM accesses reach the other one.
    pub play_bank: u8,
    pub ch4: Noise,
    pub soundcnt_l: u16,
    pub soundcnt_h: u16,
    pub wave_ram: Seq<u8>,
    pub fifo_a: FifoView,
    pub fifo_b: FifoView,
    pub sample_acc: u32,
    pub sample_rate: u32,
    pub samples: Seq<(i32, i32)>,
}

pub open spec fn apu_wf(a: ApuView) -> bool {
    &&& a.wave_ram.len() == 32
    &&& a.play_bank <= 1
    &&& a.seq_timer < SEQ_PERIOD
    &&& a.seq_step <= 7
    &&& a.prescale < 4
    &&& pulse_wf(a.ch1)
    &&& pulse_wf(a.ch2)
    &&& wave_wf(a.ch3)
    &&& noise_wf(a.ch4)
    &&& 1 <= a.sample_rate <= GBA_CLOCK
    &&& a.sample_acc < GBA_CLOCK
}

/// Power-on state: master sound off.
pub open spec fn apu_init() -> ApuView {
    ApuView {
        on: false,
        seq_timer: 0,
        seq_step: 0,
        prescale: 0,
        ch1: pulse_init(true),
        ch2: pulse_init(false),
        ch3: wave_init(),
        play_bank: 0,
        ch4: noise_init(),
        soundcnt_l: 0,
        soundcnt_h: 0,
        wave_ram: Seq::new(32, |_i: int| 0u8),
        fifo_a: fifo_init(),
        fifo_b: fifo_init(),
        sample_acc: 0,
        sample_rate: DEFAULT_RATE,
        samples: Seq::empty(),
    }
}

/// The wave channel's output from the playing bank.
pub open spec fn banked_wave_output(a: ApuView) -> u8 {
    wave_output(a.ch3, a.wave_ram.subrange(a.play_bank * 16, a.play_bank * 16 + 16))
}

/// One Game Boy T-cycle of the four channels and the frame sequencer.
pub open spec fn psg_clocked(a: ApuView) -> ApuView {
    if !a.on {
        a
    } else {
        let c = ApuView {
            ch1: pulse_ticked(a.ch1),
            ch2: pulse_ticked(a.ch2),
            ch3: wave_ticked(a.ch3),
            ch4: noise_ticked(a.ch4),
            seq_timer: (a.seq_timer + 1) as u32,
            ..a
        };
        if c.seq_timer == SEQ_PERIOD {
            let b = ApuView { seq_timer: 0, ..c };
            let s = b.seq_step;
            let b1 = if s == 0 || s == 2 || s == 4 || s == 6 {
                ApuView {
                    ch1: pulse_length_ticked(b.ch1),
                    ch2: pulse_length_ticked(b.ch2),
                    ch3: wave_length_ticked(b.ch3),
                    ch4: noise_length_ticked(b.ch4),
                    ..b
                }
            } else {
                b
            };
            let b2 = if s == 2 || s == 6 { ApuView { ch1: sweep_ticked(b1.ch1), ..b1 } } else { b1 };
            let b3 = if s == 7 {
                ApuView {
                    ch1: pulse_envelope_ticked(b2.ch1),
                    ch2: pulse_envelope_ticked(b2.ch2),
                    ch4: noise_envelope_ticked(b2.ch4),
                    ..b2
                }
            } else {
                b2
            };
            ApuView { seq_step: ((s + 1) as u8) & 7, ..b3 }
        } else {
            c
        }
    }
}

/// PSG volume from SOUNDCNT_H bits 0-1, in quarters: 25%, 50%, 100%.
pub open spec fn psg_quarters(h: u16) -> int {
    if h & 3 == 0 {
        1
    } else if h & 3 == 1 {
        2
    } else {
        4
    }
}

/// The routed PSG levels for one side (NR51-style enable bits in `bits`).
pub open spec fn psg_sum(a: ApuView, bits: u8) -> int {
    routed(bits, 0, analog(pulse_output(a.ch1), pulse_dac(a.ch1) && a.ch1.enabled))
        + routed(bits, 1, analog(pulse_output(a.ch2), pulse_dac(a.ch2) && a.ch2.enabled))
        + routed(bits, 2, analog(banked_wave_output(a), a.ch3.dac && a.ch3.enabled))
        + routed(bits, 3, analog(noise_output(a.ch4), noise_dac(a.ch4) && a.ch4.enabled))
}

/// The routed FIFO outputs (signed bytes) for one side, at 50% (1) or 100% (2).
pub open spec fn fifo_sum(a: ApuView, fifo_bit: u16) -> int {
    let h = a.soundcnt_h;
    let fa = if (h >> fifo_bit) & 1 == 1 {
        (a.fifo_a.output as i8) * (if h & 4 != 0 { 2int } else { 1 })
    } else {
        0
    };
    let fb = if (h >> (fifo_bit + 4) as u16) & 1 == 1 {
        (a.fifo_b.output as i8) * (if h & 8 != 0 { 2int } else { 1 })
    } else {
        0
    };
    fa + fb
}

/// One side of the mix, in units of 1/`SAMPLE_SCALE`: the routed PSG
/// channels scaled by the side volume and the PSG volume, plus the routed
/// FIFO outputs.
pub open spec fn side_mix(a: ApuView, first_bit: u16, vol: int, fifo_bit: u16) -> int {
    psg_sum(a, (a.soundcnt_l >> first_bit) as u8) * (1 + vol) * psg_quarters(a.soundcnt_h) * 16
        + fifo_sum(a, fifo_bit) * 30
}

/// The stereo sample for the current state.
pub open spec fn mix_sample(a: ApuView) -> (i32, i32) {
    if !a.on {
        (0, 0)
    } else {
        (
            side_mix(a, 12, ((a.soundcnt_l >> 4u16) & 7) as int, 9) as i32,
            side_mix(a, 8, (a.soundcnt_l & 7) as int, 8) as i32,
        )
    }
}

/// One system cycle: the PSG on every fourth, then the sample clock.
pub open spec fn apu_step(a: ApuView) -> ApuView {
    let p = (a.prescale + 1) as u32;
    let a1 = if p == 4 { psg_clocked(ApuView { prescale: 0, ..a }) } else { ApuView { prescale: p, ..a } };
    let acc = a1.sample_acc + a1.sample_rate;
    if acc >= GBA_CLOCK {
        ApuView { sample_acc: (acc - GBA_CLOCK) as u32, samples: a1.samples.push(mix_sample(a1)), ..a1 }
    } else {
        ApuView { sample_acc: acc as u32, ..a1 }
    }
}

pub open spec fn apu_run(a: ApuView, n: nat) -> ApuView
    decreases n,
{
    if n == 0 {
        a
    } else {
        apu_step(apu_run(a, (n - 1) as nat))
    }
}

/// Register bits that read back (0x60-0x84), NR52-style status included.
pub open spec fn reg_value(a: ApuView, reg: int) -> u8 {
    if reg == 0x60 {
        a.ch1.nrx0 | 0x80
    } else if reg == 0x62 {
        a.ch1.nrx1 | 0x3F
    } else if reg == 0x63 {
        a.ch1.nrx2
    } else if reg == 0x65 {
        (if a.ch1.length_enable { 0x40u8 } else { 0u8 }) | 0xBF
    } else if reg == 0x68 {
        a.ch2.nrx1 | 0x3F
    } else if reg == 0x69 {
        a.ch2.nrx2
    } else if reg == 0x6D {
        (if a.ch2.length_enable { 0x40u8 } else { 0u8 }) | 0xBF
    } else if reg == 0x70 {
        (if a.ch3.dac { 0x80u8 } else { 0u8 }) | 0x7F
    } else if reg == 0x72 {
        a.ch3.nr32 | 0x1F
    } else if reg == 0x75 {
        (if a.ch3.length_enable { 0x40u8 } else { 0u8 }) | 0xBF
    } else if reg == 0x79 {
        a.ch4.nr42
    } else if reg == 0x7C {
        a.ch4.nr43
    } else if reg == 0x7D {
        (if a.ch4.length_enable { 0x40u8 } else { 0u8 }) | 0xBF
    } else if reg == 0x80 {
        (a.soundcnt_l % 256) as u8
    } else if reg == 0x81 {
        (a.soundcnt_l / 256) as u8
    } else if reg == 0x82 {
        (a.soundcnt_h % 256) as u8
    } else if reg == 0x83 {
        (a.soundcnt_h / 256) as u8
    } else if reg == 0x84 {
        (if a.on { 0x80u8 } else { 0u8 }) | ((if a.ch1.enabled { 1int } else { 0 }) + (if a.ch2.enabled {
            2int
        } else {
            0
        }) + (if a.ch3.enabled { 4int } else { 0 }) + (if a.ch4.enabled { 8int } else { 0 })) as u8
            | 0x70
    } else if 0x90 <= reg <= 0x9F {
        a.wave_ram[(1 - a.play_bank) * 16 + (reg - 0x90)]
    } else {
        0
    }
}

/// Effect of writing `v` to sound register `reg`.
pub open spec fn apu_written(a: ApuView, reg: int, v: u8) -> ApuView {
    if 0x90 <= reg <= 0x9F {
        ApuView { wave_ram: a.wave_ram.update((1 - a.play_bank) * 16 + (reg - 0x90), v), ..a }
    } else if reg == 0x84 {
        if v & 0x80 != 0 {
            ApuView { on: true, ..a }
        } else {
            ApuView { wave_ram: a.wave_ram, samples: a.samples, ..apu_init() }
        }
    } else if reg == 0x82 || reg == 0x83 {
        let h = if reg == 0x82 {
            ((a.soundcnt_h / 256) * 256 + v) as u16
        } else {
            ((a.soundcnt_h % 256) + (v as int) * 256) as u16
        };
        let fa = if reg == 0x83 && v & 0x08 != 0 { fifo_init() } else { a.fifo_a };
        let fb = if reg == 0x83 && v & 0x80 != 0 { fifo_init() } else { a.fifo_b };
        ApuView { soundcnt_h: h, fifo_a: fa, fifo_b: fb, ..a }
    } else if !a.on {
        a
    } else if reg == 0x60 || (0x62 <= reg <= 0x65) {
        ApuView { ch1: pulse_written(a.ch1, if reg == 0x60 { 0 } else { (reg - 0x61) as u16 }, v), ..a }
    } else if reg == 0x68 || reg == 0x69 || reg == 0x6C || reg == 0x6D {
        ApuView {
            ch2: pulse_written(a.ch2, if reg <= 0x69 { (reg - 0x67) as u16 } else { (reg - 0x69) as u16 }, v),
            ..a
        }
    } else if reg == 0x70 {
        ApuView { ch3: wave_written(a.ch3, 0, v), play_bank: (v >> 6u8) & 1, ..a }
    } else if 0x72 <= reg <= 0x75 {
        ApuView { ch3: wave_written(a.ch3, (reg - 0x71) as u16, v), ..a }
    } else if reg == 0x78 || reg == 0x79 || reg == 0x7C || reg == 0x7D {
        ApuView {
            ch4: noise_written(a.ch4, if reg <= 0x79 { (reg - 0x78) as u16 } else { (reg - 0x7A) as u16 }, v),
            ..a
        }
    } else if reg == 0x80 {
        ApuView { soundcnt_l: ((a.soundcnt_l / 256) * 256 + v) as u16, ..a }
    } else if reg == 0x81 {
        ApuView { soundcnt_l: ((a.soundcnt_l % 256) + (v as int) * 256) as u16, ..a }
    } else {
        a
    }
}

pub struct Apu {
    pub on: bool,
    pub seq_timer: u32,
    pub seq_step: u8,
    pub prescale: u32,
    pub ch1: Pulse,
    pub ch2: Pulse,
    pub ch3: WaveCh,
    pub play_bank: u8,
    pub ch4: Noise,
    pub soundcnt_l: u16,
    pub soundcnt_h: u16,
    pub wave_ram: Vec<u8>,
    pub fifo_a: Fifo,
    pub fifo_b: Fifo,
    pub sample_acc: u32,
    pub sample_rate: u32,
    /// Stereo samples, (left, right), in units of 1/`SAMPLE_SCALE`.
    pub samples: Vec<(i32, i32)>,
}

impl View for Apu {
    type V = ApuView;

    open spec fn view(&self) -> ApuView {
        ApuView {
            on: self.on,
            seq_timer: self.seq_timer,
            seq_step: self.seq_step,
            prescale: self.prescale,
            ch1: self.ch1,
            ch2: self.ch2,
            ch3: self.ch3,
            play_bank: self.play_bank,
            ch4: self.ch4,
            soundcnt_l: self.soundcnt_l,
            soundcnt_h: self.soundcnt_h,
            wave_ram: self.wave_ram@,
            fifo_a: self.fifo_a@,
            fifo_b: self.fifo_b@,
            sample_acc: self.sample_acc,
            sample_rate: self.sample_rate,
            samples: self.samples@,
        }
    }
}

fn level(v: u8, dac: bool) -> (r: i32)
    ensures
        r == analog(v, dac),
        -15 <= r <= 495,
{
    if dac {
        2 * v as i32 - 15
    } else {
        0
    }
}

fn route(bits: u8, bit: u8, o: i32) -> (r: i32)
    requires
        bit < 8,
    ensures
        r == routed(bits, bit, o as int),
        r == o || r == 0,
{
    if (bits >> bit) & 1 == 1 {
        o
    } else {
        0
    }
}

impl Apu {
    pub fn new() -> (a: Self)
        ensures
            apu_wf(a@),
            a@ == apu_init(),
    {
        Apu {
            on: false,
            seq_timer: 0,
            seq_step: 0,
            prescale: 0,
            ch1: Pulse::init(true),
            ch2: Pulse::init(false),
            ch3: WaveCh::init(),
            play_bank: 0,
            ch4: Noise::init(),
            soundcnt_l: 0,
            soundcnt_h: 0,
            wave_ram: filled(32, 0),
            fifo_a: Fifo::new(),
            fifo_b: Fifo::new(),
            sample_acc: 0,
            sample_rate: DEFAULT_RATE,
            samples: Vec::new(),
        }
    }

    /// Sets the host sample rate, clamped to 1..=`GBA_CLOCK`.
    pub fn set_sample_rate(&mut self, hz: u32)
        ensures
            final(self)@ == (ApuView {
                sample_rate: if hz < 1 { 1 } else if hz > GBA_CLOCK { GBA_CLOCK } else { hz },
                ..old(self)@
            }),
    {
        self.sample_rate = if hz < 1 {
            1
        } else if hz > GBA_CLOCK {
            GBA_CLOCK
        } else {
            hz
        };
    }

    /// Advances `cycles` system cycles.
    pub fn tick(&mut self, cycles: u32)
        requires
            apu_wf(old(self)@),
        ensures
            apu_wf(final(self)@),
            final(self)@ == apu_run(old(self)@, cycles as nat),
    {
        let ghost a0 = self@;
        let mut i: u32 = 0;
        while i < cycles
            invariant
                i <= cycles,
                apu_wf(self@),
                self@ == apu_run(a0, i as nat),
            decreases cycles - i,
        {
            self.step();
            i = i + 1;
        }
    }

    /// One system cycle: the PSG on every fourth, then the sample clock.
    fn step(&mut self)
        requires
            apu_wf(old(self)@),
        ensures
            apu_wf(final(self)@),
            final(self)@ == apu_step(old(self)@),
    {
        self.prescale = self.prescale + 1;
        if self.prescale == 4 {
            self.prescale = 0;
            self.tick_psg();
        }
        self.sample_acc = self.sample_acc + self.sample_rate;
        if self.sample_acc >= GBA_CLOCK {
            self.sample_acc = self.sample_acc - GBA_CLOCK;
            let s = self.mix();
            self.samples.push(s);
        }
    }

    /// One Game Boy T-cycle of the channels and the frame sequencer.
    fn tick_psg(&mut self)
        requires
            apu_wf(old(self)@),
        ensures
            apu_wf(final(self)@),
            final(self)@ == psg_clocked(old(self)@),
    {
        if !self.on {
            return;
        }
        self.ch1.tick();
        self.ch2.tick();
        self.ch3.tick();
        self.ch4.tick();
        self.seq_timer = self.seq_timer + 1;
        if self.seq_timer == SEQ_PERIOD {
            self.seq_timer = 0;
            let s = self.seq_step;
            if s == 0 || s == 2 || s == 4 || s == 6 {
                self.ch1.tick_length();
                self.ch2.tick_length();
                self.ch3.tick_length();
                self.ch4.tick_length();
            }
            if s == 2 || s == 6 {
                self.ch1.tick_sweep();
            }
            if s == 7 {
                self.ch1.tick_envelope();
                self.ch2.tick_envelope();
                self.ch4.tick_envelope();
            }
            proof { lemma_u8_bits((s + 1) as u8); }
            self.seq_step = (s + 1) & 7;
        }
    }

    /// The wave channel's output from the playing bank.
    fn wave_level(&self) -> (r: u8)
        requires
            apu_wf(self@),
        ensures
            r == banked_wave_output(self@),
    {
        let w = &self.ch3;
        if !w.enabled || !w.dac {
            return 0;
        }
        let byte = self.wave_ram[self.play_bank as usize * 16 + (w.pos / 2) as usize];
        let nibble = if w.pos & 1 == 0 { byte >> 4 } else { byte & 0x0F };
        let vol = (w.nr32 >> 5) & 3;
        if vol == 0 {
            0
        } else if vol == 1 {
            nibble
        } else if vol == 2 {
            nibble >> 1
        } else {
            nibble >> 2
        }
    }

    fn psg(&self, bits: u8) -> (r: i32)
        requires
            apu_wf(self@),
        ensures
            r == psg_sum(self@, bits),
            -60 <= r <= 1980,
    {
        let o1 = level(self.ch1.output(), self.ch1.dac_on() && self.ch1.enabled);
        let o2 = level(self.ch2.output(), self.ch2.dac_on() && self.ch2.enabled);
        let o3 = level(self.wave_level(), self.ch3.dac && self.ch3.enabled);
        let o4 = level(self.ch4.output(), self.ch4.dac_on() && self.ch4.enabled);
        route(bits, 0, o1) + route(bits, 1, o2) + route(bits, 2, o3) + route(bits, 3, o4)
    }

    fn fifos(&self, fifo_bit: u16) -> (r: i32)
        requires
            fifo_bit == 8 || fifo_bit == 9,
        ensures
            r == fifo_sum(self@, fifo_bit),
            -512 <= r <= 512,
    {
        let h = self.soundcnt_h;
        let fa: i32 = if (h >> fifo_bit) & 1 == 1 {
            (self.fifo_a.output as i8) as i32 * (if h & 4 != 0 { 2 } else { 1 })
        } else {
            0
        };
        let fb: i32 = if (h >> (fifo_bit + 4)) & 1 == 1 {
            (self.fifo_b.output as i8) as i32 * (if h & 8 != 0 { 2 } else { 1 })
        } else {
            0
        };
        fa + fb
    }

    /// One side of the mix (see `side_mix`).
    fn side(&self, first_bit: u16, vol: u16, fifo_bit: u16) -> (r: i32)
        requires
            apu_wf(self@),
            first_bit == 8 || first_bit == 12,
            vol <= 7,
            fifo_bit == 8 || fifo_bit == 9,
        ensures
            r == side_mix(self@, first_bit, vol as int, fifo_bit),
    {
        let psg = self.psg((self.soundcnt_l >> first_bit) as u8);
        let h = self.soundcnt_h;
        let q: i32 = if h & 3 == 0 {
            1
        } else if h & 3 == 1 {
            2
        } else {
            4
        };
        let f = self.fifos(fifo_bit);
        proof {
            assert(-60 * 8 * 4 <= psg * (1 + vol as int) * q <= 1980 * 8 * 4) by (nonlinear_arith)
                requires -60 <= psg <= 1980, 0 <= vol <= 7, 1 <= q <= 4;
        }
        psg * (1 + vol as i32) * q * 16 + f * 30
    }

    fn mix(&self) -> (s: (i32, i32))
        requires
            apu_wf(self@),
        ensures
            s == mix_sample(self@),
    {
        if !self.on {
            return (0, 0);
        }
        let l = self.soundcnt_l;
        proof {
            crate::bits::lemma_u16_bits(l);
            crate::bits::lemma_u16_bits(l >> 4u16);
            assert((l >> 4u16) & 7 <= 7 && l & 7 <= 7) by (bit_vector);
        }
        (self.side(12, (l >> 4) & 7, 9), self.side(8, l & 7, 8))
    }

    /// FIFO data-port write (a DMA target); `which` 0 is A, 1 is B.
    pub fn fifo_push(&mut self, which: usize, byte: u8)
        ensures
            final(self)@ == if which == 0 {
                ApuView { fifo_a: fifo_pushed(old(self)@.fifo_a, byte), ..old(self)@ }
            } else {
                ApuView { fifo_b: fifo_pushed(old(self)@.fifo_b, byte), ..old(self)@ }
            },
    {
        if which == 0 {
            self.fifo_a.push(byte);
        } else {
            self.fifo_b.push(byte);
        }
    }

    /// Timer `timer` overflowed `times` times: step each FIFO that follows it
    /// (SOUNDCNT_H bit 10 for A, 14 for B).
    pub fn on_timer_overflow(&mut self, timer: usize, times: u32)
        ensures
            final(self)@ == (ApuView {
                fifo_a: if ((old(self)@.soundcnt_h >> 10u16) & 1) as int == timer as int {
                    fifo_stepped_n(old(self)@.fifo_a, times as nat)
                } else {
                    old(self)@.fifo_a
                },
                fifo_b: if ((old(self)@.soundcnt_h >> 14u16) & 1) as int == timer as int {
                    fifo_stepped_n(old(self)@.fifo_b, times as nat)
                } else {
                    old(self)@.fifo_b
                },
                ..old(self)@
            }),
    {
        let sel_a = (self.soundcnt_h >> 10) & 1;
        if sel_a as usize == timer {
            let ghost f0 = self@.fifo_a;
            let mut i: u32 = 0;
            while i < times
                invariant
                    i <= times,
                    self@ == (ApuView { fifo_a: fifo_stepped_n(f0, i as nat), ..old(self)@ }),
                decreases times - i,
            {
                self.fifo_a.step();
                i = i + 1;
            }
        }
        let sel_b = (self.soundcnt_h >> 14) & 1;
        if sel_b as usize == timer {
            let ghost f0 = self@.fifo_b;
            let ghost a1 = self@;
            let mut i: u32 = 0;
            while i < times
                invariant
                    i <= times,
                    self@ == (ApuView { fifo_b: fifo_stepped_n(f0, i as nat), ..a1 }),
                decreases times - i,
            {
                self.fifo_b.step();
                i = i + 1;
            }
        }
    }

    /// Takes and clears the refill request of FIFO `which`.
    pub fn fifo_needs_dma(&mut self, which: usize) -> (r: bool)
        ensures
            r == if which == 0 { old(self)@.fifo_a.needs_dma } else { old(self)@.fifo_b.needs_dma },
            final(self)@ == if which == 0 {
                ApuView { fifo_a: FifoView { needs_dma: false, ..old(self)@.fifo_a }, ..old(self)@ }
            } else {
                ApuView { fifo_b: FifoView { needs_dma: false, ..old(self)@.fifo_b }, ..old(self)@ }
            },
    {
        if which == 0 {
            let r = self.fifo_a.needs_dma;
            self.fifo_a.needs_dma = false;
            r
        } else {
            let r = self.fifo_b.needs_dma;
            self.fifo_b.needs_dma = false;
            r
        }
    }

    /// Reads sound register `reg` (an offset into the I/O page).
    pub fn read(&self, reg: usize) -> (r: u8)
        requires
            apu_wf(self@),
        ensures
            r == reg_value(self@, reg as int),
    {
        if reg == 0x60 {
            self.ch1.nrx0 | 0x80
        } else if reg == 0x62 {
            self.ch1.nrx1 | 0x3F
        } else if reg == 0x63 {
            self.ch1.nrx2
        } else if reg == 0x65 {
            (if self.ch1.length_enable { 0x40u8 } else { 0u8 }) | 0xBF
        } else if reg == 0x68 {
            self.ch2.nrx1 | 0x3F
        } else if reg == 0x69 {
            self.ch2.nrx2
        } else if reg == 0x6D {
            (if self.ch2.length_enable { 0x40u8 } else { 0u8 }) | 0xBF
        } else if reg == 0x70 {
            (if self.ch3.dac { 0x80u8 } else { 0u8 }) | 0x7F
        } else if reg == 0x72 {
            self.ch3.nr32 | 0x1F
        } else if reg == 0x75 {
            (if self.ch3.length_enable { 0x40u8 } else { 0u8 }) | 0xBF
        } else if reg == 0x79 {
            self.ch4.nr42
        } else if reg == 0x7C {
            self.ch4.nr43
        } else if reg == 0x7D {
            (if self.ch4.length_enable { 0x40u8 } else { 0u8 }) | 0xBF
        } else if reg == 0x80 {
            (self.soundcnt_l % 256) as u8
        } else if reg == 0x81 {
            (self.soundcnt_l / 256) as u8
        } else if reg == 0x82 {
            (self.soundcnt_h % 256) as u8
        } else if reg == 0x83 {
            (self.soundcnt_h / 256) as u8
        } else if reg == 0x84 {
            let status: u8 = (if self.ch1.enabled { 1u8 } else { 0 }) + (if self.ch2.enabled {
                2u8
            } else {
                0
            }) + (if self.ch3.enabled { 4u8 } else { 0 }) + (if self.ch4.enabled { 8u8 } else { 0 });
            (if self.on { 0x80u8 } else { 0u8 }) | status | 0x70
        } else if 0x90 <= reg && reg <= 0x9F {
            self.wave_ram[(1 - self.play_bank as usize) * 16 + (reg - 0x90)]
        } else {
            0
        }
    }

    /// Writes sound register `reg`. Wave RAM writes reach the bank not
    /// playing; the master switch and SOUNDCNT_H are always writable, the
    /// channel registers only while sound is on.
    pub fn write(&mut self, reg: usize, v: u8)
        requires
            apu_wf(old(self)@),
        ensures
            apu_wf(final(self)@),
            final(self)@ == apu_written(old(self)@, reg as int, v),
    {
        if 0x90 <= reg && reg <= 0x9F {
            self.wave_ram.set((1 - self.play_bank as usize) * 16 + (reg - 0x90), v);
            return;
        }
        if reg == 0x84 {
            if v & 0x80 != 0 {
                self.on = true;
            } else {
                // power off clears everything but wave RAM and the samples
                self.on = false;
                self.seq_timer = 0;
                self.seq_step = 0;
                self.prescale = 0;
                self.ch1 = Pulse::init(true);
                self.ch2 = Pulse::init(false);
                self.ch3 = WaveCh::init();
                self.play_bank = 0;
                self.ch4 = Noise::init();
                self.soundcnt_l = 0;
                self.soundcnt_h = 0;
                self.fifo_a = Fifo::new();
                self.fifo_b = Fifo::new();
                self.sample_acc = 0;
                self.sample_rate = DEFAULT_RATE;
            }
            return;
        }
        if reg == 0x82 {
            self.soundcnt_h = (self.soundcnt_h / 256) * 256 + v as u16;
            return;
        }
        if reg == 0x83 {
            self.soundcnt_h = self.soundcnt_h % 256 + (v as u16) * 256;
            if v & 0x08 != 0 {
                self.fifo_a = Fifo::new();  // bit 11: reset FIFO A
            }
            if v & 0x80 != 0 {
                self.fifo_b = Fifo::new();  // bit 15: reset FIFO B
            }
            return;
        }
        if !self.on {
            return;  // the PSG registers are read-only while sound is off
        }
        if reg == 0x60 {
            self.ch1.write_reg(0, v);
        } else if 0x62 <= reg && reg <= 0x65 {
            self.ch1.write_reg((reg - 0x61) as u16, v);
        } else if reg == 0x68 || reg == 0x69 {
            self.ch2.write_reg((reg - 0x67) as u16, v);
        } else if reg == 0x6C || reg == 0x6D {
            self.ch2.write_reg((reg - 0x69) as u16, v);
        } else if reg == 0x70 {
            self.ch3.write_reg(0, v);
            proof { lemma_u8_bits(v >> 6u8); }
            self.play_bank = (v >> 6) & 1;
        } else if 0x72 <= reg && reg <= 0x75 {
            self.ch3.write_reg((reg - 0x71) as u16, v);
        } else if reg == 0x78 || reg == 0x79 {
            self.ch4.write_reg((reg - 0x78) as u16, v);
        } else if reg == 0x7C || reg == 0x7D {
            self.ch4.write_reg((reg - 0x7A) as u16, v);
        } else if reg == 0x80 {
            self.soundcnt_l = (self.soundcnt_l / 256) * 256 + v as u16;
        } else if reg == 0x81 {
            self.soundcnt_l = self.soundcnt_l % 256 + (v as u16) * 256;
        }
    }
}

} // verus!
