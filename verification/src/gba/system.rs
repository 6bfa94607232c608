//! The Game Boy Advance machine as the frontend drives it: construction from
//! a ROM, battery saves, the sample rate, and debug access to the bus.
use vstd::prelude::*;
use crate::gba::bus::{
    Bus, BusView, bus_wf, caught_up, clocked, event_step, events_due, events_run, io16,
    keypad_checked, read16_value, read8_value, stored16, stored32, stored8, timer_advanced,
    timers_from, with_timer, prescale, apu_caught_up, timers_caught_up, Timer,
};
use crate::gba::cpu::{
    Cpu, CpuView, ExecError, Outcome, arm_stepped, cpu_wf, cpu_room, exception_entered,
    exec_addr_of, is_thumb,
};
use crate::gba::thumb::thumb_stepped;
use crate::gba::keypad::keyinput_value;
use crate::gba::ppu::{PpuView, bgr555_to_rgb, channel, expand5};
use crate::gba::psr::{I, Mode};
use crate::machine::{Buttons, Rgb};
use crate::gba::dma::{dma_ran, dma_room, first_pending};
use crate::gba::save::{SaveView, detected, save_wf};
use crate::gba::apu::{ApuView, GBA_CLOCK};
use crate::machine::FrameBuffer;
use crate::state::{fnv1a, rom_id};
use crate::bytes::overlay;
use crate::gba::flash::FlashView;

verus! {

/// 1232 cycles per line, 228 lines: about 59.73 Hz, the Game Boy's rate.
pub const CYCLES_PER_FRAME: u64 = 280_896;

/// Master clock in Hz.
pub const CLOCK_HZ: u64 = 16_777_216;

/// The smallest ROM that holds a cartridge header.
pub const MIN_ROM_LEN: usize = 0xC0;

/// Why a ROM cannot be run.
#[derive(Clone, Copy, PartialEq, Eq, Debug, Structural)]
pub enum RomError {
    TooSmall,
}

impl RomError {
    /// Human-readable description of the error.
    pub fn message(&self) -> (s: &'static str)
        ensures
            s@ == "ROM is too small to contain a GBA cartridge header"@,
    {
        "ROM is too small to contain a GBA cartridge header"
    }
}

pub struct GbaCore {
    pub cpu: Cpu,
    pub frame: FrameBuffer,
    /// Identifies the ROM in save states.
    pub rom_id: u64,
}

/// Cycle headroom the debug accessors keep.
pub open spec fn core_room(c: CpuView) -> bool {
    c.bus.cycles < 0x3000_0000_0000_0000
}

impl GbaCore {
    /// A machine at the cartridge entry point; ROMs shorter than a header
    /// are refused.
    pub fn new(rom: Vec<u8>) -> (r: Result<Self, RomError>)
        ensures
            match r {
                Ok(g) => {
                    &&& rom@.len() >= MIN_ROM_LEN
                    &&& cpu_wf(g.cpu@)
                    &&& g.cpu@.bus.rom == rom@
                    &&& g.cpu@.bus.save == detected(rom@)
                    &&& g.cpu@.bus.cycles == 2
                    &&& g.rom_id == fnv1a(rom@)
                    &&& g.frame.width == 240 && g.frame.height == 160
                    &&& g.frame.pixels@.len() == 240 * 160
                },
                Err(e) => rom@.len() < MIN_ROM_LEN && e == RomError::TooSmall,
            },
    {
        if rom.len() < MIN_ROM_LEN {
            return Err(RomError::TooSmall);
        }
        let id = rom_id(rom.as_slice());
        Ok(GbaCore { cpu: Cpu::new(Bus::new(rom)), frame: FrameBuffer::new(240, 160), rom_id: id })
    }

    /// Total elapsed bus cycles.
    pub fn cycles(&self) -> (c: u64)
        ensures
            c == self.cpu@.bus.cycles,
    {
        self.cpu.bus.cycles
    }

    /// A byte store through the bus (the save region, in tests).
    pub fn debug_write8(&mut self, addr: u32, value: u8)
        requires
            cpu_wf(old(self).cpu@),
            core_room(old(self).cpu@),
        ensures
            cpu_wf(final(self).cpu@),
            final(self).cpu@ == (CpuView { bus: stored8(clocked(old(self).cpu@.bus), addr, value), ..old(self).cpu@ }),
            final(self).rom_id == old(self).rom_id,
    {
        self.cpu.bus.write8(addr, value);
    }

    pub fn debug_read8(&mut self, addr: u32) -> (r: u8)
        requires
            cpu_wf(old(self).cpu@),
            core_room(old(self).cpu@),
        ensures
            cpu_wf(final(self).cpu@),
            final(self).cpu@ == (CpuView { bus: clocked(old(self).cpu@.bus), ..old(self).cpu@ }),
            r == read8_value(clocked(old(self).cpu@.bus), addr),
    {
        self.cpu.bus.read8(addr)
    }

    pub fn debug_write16(&mut self, addr: u32, value: u16)
        requires
            cpu_wf(old(self).cpu@),
            core_room(old(self).cpu@),
        ensures
            cpu_wf(final(self).cpu@),
            final(self).cpu@ == (CpuView { bus: stored16(clocked(old(self).cpu@.bus), addr, value), ..old(self).cpu@ }),
    {
        self.cpu.bus.write16(addr, value);
    }

    pub fn debug_read16(&mut self, addr: u32) -> (r: u16)
        requires
            cpu_wf(old(self).cpu@),
            core_room(old(self).cpu@),
        ensures
            cpu_wf(final(self).cpu@),
            final(self).cpu@ == (CpuView { bus: clocked(old(self).cpu@.bus), ..old(self).cpu@ }),
            r == read16_value(clocked(old(self).cpu@.bus), addr),
    {
        self.cpu.bus.read16(addr)
    }

    /// Programs and immediately runs a 16-bit immediate DMA3 transfer of
    /// `count` units from `src` to `dst`.
    pub fn debug_dma3(&mut self, src: u32, dst: u32, count: u16)
        requires
            cpu_wf(old(self).cpu@),
            core_room(old(self).cpu@),
        ensures
            cpu_wf(final(self).cpu@),
            ({
                let b0 = old(self).cpu@.bus;
                let b1 = stored32(clocked(b0), 0x0400_00D4, src);
                let b2 = stored32(clocked(b1), 0x0400_00D8, dst);
                let b3 = stored16(clocked(b2), 0x0400_00DC, count);
                let b4 = stored16(clocked(b3), 0x0400_00DE, 0x8000);
                final(self).cpu@ == (CpuView {
                    bus: match first_pending(b4.dma) {
                        Some(ch) => dma_ran(b4, ch as int),
                        None => b4,
                    },
                    ..old(self).cpu@
                })
            }),
    {
        self.cpu.bus.write32(0x0400_00D4, src);
        self.cpu.bus.write32(0x0400_00D8, dst);
        self.cpu.bus.write16(0x0400_00DC, count);
        self.cpu.bus.write16(0x0400_00DE, 0x8000);
        if let Some(ch) = self.cpu.bus.dma_ready() {
            self.cpu.bus.run_dma(ch);
        }
    }

    /// The battery save, None for carts without save memory.
    pub fn save_ram(&self) -> (r: Option<Vec<u8>>)
        ensures
            match self.cpu@.bus.save {
                SaveView::Absent => r is None,
                SaveView::Sram(d) => r matches Some(v) && v@ == d,
                SaveView::Flash(f) => r matches Some(v) && v@ == f.data,
            },
    {
        self.cpu.bus.save.backup()
    }

    /// Loads a battery save (see `Save::restore`).
    pub fn load_ram(&mut self, data: &[u8])
        requires
            cpu_wf(old(self).cpu@),
        ensures
            cpu_wf(final(self).cpu@),
            final(self).cpu@ == (CpuView {
                bus: BusView {
                    save: match old(self).cpu@.bus.save {
                        SaveView::Absent => SaveView::Absent,
                        SaveView::Sram(d) => SaveView::Sram(overlay(d, data@)),
                        SaveView::Flash(f) => SaveView::Flash(FlashView { data: overlay(f.data, data@), ..f }),
                    },
                    ..old(self).cpu@.bus
                },
                ..old(self).cpu@
            }),
    {
        self.cpu.bus.save.restore(data);
    }

    /// Sets the host sample rate, clamped to 1..=`GBA_CLOCK`.
    pub fn set_audio_rate(&mut self, hz: u32)
        requires
            cpu_wf(old(self).cpu@),
        ensures
            cpu_wf(final(self).cpu@),
            final(self).cpu@ == (CpuView {
                bus: BusView {
                    apu: ApuView {
                        sample_rate: if hz < 1 { 1 } else if hz > GBA_CLOCK { GBA_CLOCK } else { hz },
                        ..old(self).cpu@.bus.apu
                    },
                    ..old(self).cpu@.bus
                },
                ..old(self).cpu@
            }),
    {
        self.cpu.bus.apu.set_sample_rate(hz);
    }
}


// ------------------------------------------------------------------ the frame driver

/// What a frame run hands back to the host.
#[derive(Clone, Copy, PartialEq, Eq, Debug, Structural)]
pub enum FrameStep {
    /// The frame is drawn (or a frame's worth of cycles went by without one).
    Done,
    /// MidiKey2Freq: the host writes the frequency to r0 and resumes the
    /// frame with `resume_frame(cap, ..)`.
    KeyToFreq { base: u32, key: u32, fine: u32, cap: u64 },
}

/// One step of the whole machine: the peripherals are brought up to the
/// cycle counter; a pending DMA transfer runs; a halted CPU waits a cycle
/// unless an enabled interrupt is flagged (IE & IF, whatever IME says),
/// which wakes it; an interrupt that IME lets through is taken unless the
/// CPSR masks it; otherwise one instruction runs.
#[verifier::opaque]
pub open spec fn system_stepped(c: CpuView) -> Result<(CpuView, Outcome), ExecError> {
    let c1 = CpuView { bus: caught_up(c.bus), ..c };
    let wake = io16(c1.bus, 0x200) & io16(c1.bus, 0x202) & 0x3FFF != 0;
    match first_pending(c1.bus.dma) {
        Some(ch) => Ok((CpuView { bus: dma_ran(c1.bus, ch as int), ..c1 }, Outcome::Done)),
        None => if c1.bus.halted && !wake {
            Ok((CpuView { bus: clocked(c1.bus), ..c1 }, Outcome::Done))
        } else {
            let c2 = CpuView { bus: BusView { halted: false, ..c1.bus }, ..c1 };
            if c2.bus.io[0x208] & 1 != 0 && wake && c2.regs.cpsr.0 & I == 0 {
                Ok(
                    (
                        exception_entered(c2, 0x18, Mode::Irq, exec_addr_of(c2).wrapping_add(4)),
                        Outcome::Done,
                    ),
                )
            } else if is_thumb(c2) {
                thumb_stepped(c2)
            } else {
                arm_stepped(c2)
            }
        },
    }
}

/// Up to `n` system steps from `c` while the frame is not ready and the
/// cycle counter is below `cap`; stops early to hand a MidiKey2Freq call to
/// the host, and at an instruction the core does not execute.
pub open spec fn frame_run(c: CpuView, cap: u64, n: nat) -> Result<(CpuView, FrameStep), ExecError>
    decreases n,
{
    if n == 0 || c.bus.ppu.frame_ready || c.bus.cycles >= cap {
        Ok((c, FrameStep::Done))
    } else {
        match system_stepped(c) {
            Ok((c1, Outcome::Done)) => frame_run(c1, cap, (n - 1) as nat),
            Ok((c1, Outcome::KeyToFreq { base, key, fine })) => Ok(
                (c1, FrameStep::KeyToFreq { base, key, fine, cap }),
            ),
            Err(e) => Err(e),
        }
    }
}

/// The machine as a frame starts: the buttons latched and the frame flag
/// cleared.
pub open spec fn frame_started(c: CpuView, buttons: Buttons) -> CpuView {
    let b = keypad_checked(BusView { keyinput: keyinput_value(buttons.0), ..c.bus });
    CpuView { bus: BusView { ppu: PpuView { frame_ready: false, ..b.ppu }, ..b }, ..c }
}

/// A frame: system steps from `frame_started` until the frame is ready,
/// with a cap of one frame of cycles (and as many steps).
pub open spec fn frame_ran(c: CpuView, buttons: Buttons) -> Result<(CpuView, FrameStep), ExecError> {
    let s = frame_started(c, buttons);
    frame_run(s, (s.bus.cycles + CYCLES_PER_FRAME) as u64, CYCLES_PER_FRAME as nat)
}

/// A BGR555 pixel as shown: through the colour table when there is one.
pub open spec fn shown(c: u16, lut: Option<Seq<Rgb>>) -> Rgb {
    match lut {
        Some(t) => t[(c & 0x7FFF) as int],
        None => Rgb(expand5(channel(c, 0)), expand5(channel(c, 1)), expand5(channel(c, 2))),
    }
}

proof fn lemma_timers_from_cycles(b: BusView, elapsed: u64, t: int, overflows: u64)
    ensures
        timers_from(b, elapsed, t, overflows).cycles == b.cycles,
        timers_from(b, elapsed, t, overflows).events_done == b.events_done,
    decreases 4 - t,
{
    if 0 <= t < 4 {
        let ctrl = io16(b, 0x102 + t * 4);
        if ctrl & 0x80 == 0 {
            lemma_timers_from_cycles(b, elapsed, t + 1, 0);
        } else if t > 0 && ctrl & 4 != 0 {
            let (c, n) = timer_advanced(b, t, overflows);
            lemma_timers_from_cycles(c, elapsed, t + 1, n);
        } else {
            let rem: int = b.timers[t].rem + elapsed;
            let p: int = prescale(ctrl & 3) as int;
            let c = with_timer(b, t, Timer { rem: (rem % p) as u64, ..b.timers[t] });
            let (d, n) = timer_advanced(c, t, (rem / p) as u64);
            lemma_timers_from_cycles(d, elapsed, t + 1, n);
        }
    }
}

proof fn lemma_events_run_cycles(b: BusView, n: nat)
    ensures
        events_run(b, n).cycles == b.cycles,
    decreases n,
{
    if n > 0 {
        lemma_events_run_cycles(b, (n - 1) as nat);
    }
}

/// Bringing the peripherals up to date leaves the cycle counter as it is.
proof fn lemma_caught_up_cycles(b: BusView)
    ensures
        caught_up(b).cycles == b.cycles,
{
    let elapsed = (b.cycles - b.timers_synced) as u64;
    let c = BusView { timers_synced: b.cycles, ..b };
    if elapsed != 0 {
        lemma_timers_from_cycles(c, elapsed, 0, 0);
    }
    let a = apu_caught_up(timers_caught_up(b));
    lemma_events_run_cycles(a, (events_due(a.cycles as int) - a.events_done) as nat);
}

impl Cpu {
    /// One step of the whole machine (see `system_stepped`).
    #[verifier::spinoff_prover]
    pub fn step_system(&mut self) -> (r: Result<Outcome, ExecError>)
        requires
            cpu_wf(old(self)@),
            cpu_room(old(self)@),
        ensures
            cpu_wf(final(self)@),
            match system_stepped(old(self)@) {
                Ok((c, o)) => r == Ok::<Outcome, ExecError>(o) && final(self)@ == c,
                Err(e) => r == Err::<Outcome, ExecError>(e),
            },
    {
        proof {
            reveal(system_stepped);
            lemma_caught_up_cycles(self.bus@);
        }
        self.bus.catch_up();
        if let Some(ch) = self.bus.dma_ready() {
            self.bus.run_dma(ch);
            return Ok(Outcome::Done);
        }
        let wake = self.bus.irq_asserted();
        if self.bus.halted {
            if !wake {
                self.bus.idle();
                return Ok(Outcome::Done);
            }
            self.bus.halted = false;
        }
        if self.bus.irq_pending() && !self.regs.cpsr.flag(I) {
            self.irq();
            return Ok(Outcome::Done);
        }
        self.step()
    }
}

impl GbaCore {
    /// Runs one frame (see `frame_ran`), then shows the PPU's frame in
    /// `self.frame`: through the colour table `lut` when there is one. A
    /// MidiKey2Freq call is handed to the host before the frame is done.
    pub fn run_frame(&mut self, buttons: Buttons, lut: Option<&[Rgb]>) -> (r: Result<FrameStep, ExecError>)
        requires
            cpu_wf(old(self).cpu@),
            core_room(old(self).cpu@),
            old(self).frame.pixels@.len() == 240 * 160,
            lut matches Some(t) ==> t@.len() == 32768,
        ensures
            cpu_wf(final(self).cpu@),
            final(self).frame.pixels@.len() == 240 * 160,
            match frame_ran(old(self).cpu@, buttons) {
                Ok((c, FrameStep::Done)) => {
                    &&& r == Ok::<FrameStep, ExecError>(FrameStep::Done)
                    &&& final(self).cpu@ == c
                    &&& forall|i: int|
                        0 <= i < 240 * 160 ==> #[trigger] final(self).frame.pixels@[i] == shown(
                            c.bus.ppu.frame[i],
                            match lut {
                                Some(t) => Some(t@),
                                None => None,
                            },
                        )
                },
                Ok((c, k)) => r == Ok::<FrameStep, ExecError>(k) && final(self).cpu@ == c,
                Err(e) => r == Err::<FrameStep, ExecError>(e),
            },
    {
        self.cpu.bus.set_buttons(buttons);
        self.cpu.bus.ppu.frame_ready = false;
        assert(self.cpu@ == frame_started(old(self).cpu@, buttons));
        let cap = self.cpu.bus.cycles + CYCLES_PER_FRAME;
        self.resume_frame(cap, lut)
    }

    /// Runs system steps while the frame is not ready and the cycle counter
    /// is below `cap` (see `frame_run`, with one frame of cycles as the step
    /// bound), then shows the frame as `run_frame` does. This is how the host
    /// resumes a frame after finishing a MidiKey2Freq call.
    #[verifier::spinoff_prover]
    pub fn resume_frame(&mut self, cap: u64, lut: Option<&[Rgb]>) -> (r: Result<FrameStep, ExecError>)
        requires
            cpu_wf(old(self).cpu@),
            cap <= 0x3000_0000_0000_0000 + CYCLES_PER_FRAME,
            old(self).frame.pixels@.len() == 240 * 160,
            lut matches Some(t) ==> t@.len() == 32768,
        ensures
            cpu_wf(final(self).cpu@),
            final(self).frame.pixels@.len() == 240 * 160,
            match frame_run(old(self).cpu@, cap, CYCLES_PER_FRAME as nat) {
                Ok((c, FrameStep::Done)) => {
                    &&& r == Ok::<FrameStep, ExecError>(FrameStep::Done)
                    &&& final(self).cpu@ == c
                    &&& forall|i: int|
                        0 <= i < 240 * 160 ==> #[trigger] final(self).frame.pixels@[i] == shown(
                            c.bus.ppu.frame[i],
                            match lut {
                                Some(t) => Some(t@),
                                None => None,
                            },
                        )
                },
                Ok((c, k)) => r == Ok::<FrameStep, ExecError>(k) && final(self).cpu@ == c,
                Err(e) => r == Err::<FrameStep, ExecError>(e),
            },
    {
        let ghost s = self.cpu@;
        let mut n: u64 = CYCLES_PER_FRAME;
        while n > 0 && !self.cpu.bus.ppu.frame_ready && self.cpu.bus.cycles < cap
            invariant
                cpu_wf(self.cpu@),
                cap <= 0x3000_0000_0000_0000 + CYCLES_PER_FRAME,
                s == old(self).cpu@,
                n <= CYCLES_PER_FRAME,
                self.frame.pixels@.len() == 240 * 160,
                frame_run(self.cpu@, cap, n as nat) == frame_run(s, cap, CYCLES_PER_FRAME as nat),
            decreases n,
        {
            let ghost pre = self.cpu@;
            let r = self.cpu.step_system();
            assert(frame_run(pre, cap, n as nat) == match system_stepped(pre) {
                Ok((c1, Outcome::Done)) => frame_run(c1, cap, (n - 1) as nat),
                Ok((c1, Outcome::KeyToFreq { base, key, fine })) => Ok(
                    (c1, FrameStep::KeyToFreq { base, key, fine, cap }),
                ),
                Err(e) => Err(e),
            });
            match r {
                Ok(Outcome::Done) => {},
                Ok(Outcome::KeyToFreq { base, key, fine }) => {
                    return Ok(FrameStep::KeyToFreq { base, key, fine, cap });
                },
                Err(e) => {
                    return Err(e);
                },
            }
            n = n - 1;
        }
        self.show(lut);
        Ok(FrameStep::Done)
    }

    /// Converts the PPU's frame into `self.frame`.
    fn show(&mut self, lut: Option<&[Rgb]>)
        requires
            cpu_wf(old(self).cpu@),
            old(self).frame.pixels@.len() == 240 * 160,
            lut matches Some(t) ==> t@.len() == 32768,
        ensures
            final(self).cpu == old(self).cpu,
            final(self).frame.pixels@.len() == 240 * 160,
            forall|i: int|
                0 <= i < 240 * 160 ==> #[trigger] final(self).frame.pixels@[i] == shown(
                    old(self).cpu@.bus.ppu.frame[i],
                    match lut {
                        Some(t) => Some(t@),
                        None => None,
                    },
                ),
    {
        let mut i: usize = 0;
        while i < 240 * 160
            invariant
                cpu_wf(self.cpu@),
                self.cpu == old(self).cpu,
                lut matches Some(t) ==> t@.len() == 32768,
                self.frame.pixels@.len() == 240 * 160,
                forall|j: int|
                    0 <= j < i ==> #[trigger] self.frame.pixels@[j] == shown(
                        self.cpu@.bus.ppu.frame[j],
                        match lut {
                            Some(t) => Some(t@),
                            None => None,
                        },
                    ),
            decreases 240 * 160 - i,
        {
            let c = self.cpu.bus.ppu.frame[i];
            assert(c & 0x7FFF < 0x8000) by (bit_vector);
            let px = match lut {
                Some(t) => t[(c & 0x7FFF) as usize],
                None => bgr555_to_rgb(c),
            };
            self.frame.pixels.set(i, px);
            i = i + 1;
        }
    }
}

} // verus!
