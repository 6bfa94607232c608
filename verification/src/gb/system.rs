//! The Game Boy machine: a CPU on a bus around a cartridge, run a video
//! frame at a time.
use vstd::prelude::*;
use crate::gb::bus::{Bus, bus_init};
use crate::gb::cartridge::{
    CartError, Cartridge, cart_wf, cartridge_for, rom_short_of_a_bank, saved_image, load_ok,
    image_loaded,
};
use crate::gb::cpu::{Cpu, CpuError, CpuView, cpu_wf, lemma_step_advances, stepped};
use crate::gb::registers::post_boot_regs;
use crate::gb::cartridge::MapperView;
use crate::gb::mbc3::{clock_total, elapsed, has_footer, rtc_restored};
use crate::machine::{Buttons, FrameBuffer};

verus! {

/// T-cycles per video frame (154 scanlines of 456 T-cycles, about 59.73 Hz).
pub const CYCLES_PER_FRAME: u64 = 70224;

/// Steps from `s` until the cycle count reaches `end`, or until an opcode
/// that is not an instruction stops the CPU: the state reached, and that
/// opcode if one stopped it.
pub open spec fn run_until(s: CpuView, end: u64) -> (CpuView, Option<u8>)
    decreases end + 24 - s.bus.cycles,
{
    if s.bus.cycles >= end || end > u64::MAX - 24 {
        (s, None)
    } else {
        let (t, op) = stepped(s);
        if op is Some {
            (t, op)
        } else {
            proof {
                lemma_step_advances(s);
            }
            run_until(t, end)
        }
    }
}

pub struct GameBoy {
    pub cpu: Cpu,
    pub frame: FrameBuffer,
}

impl GameBoy {
    /// A machine in the post-boot state around `rom`. Fails as the cartridge
    /// header does, and with `TooSmall` for a banked ROM shorter than a bank.
    pub fn new(rom: Vec<u8>) -> (r: Result<Self, CartError>)
        ensures
            match (r, cartridge_for(rom@)) {
                (Ok(g), Ok(c)) => {
                    &&& !rom_short_of_a_bank(c)
                    &&& cpu_wf(g.cpu@)
                    &&& g.cpu@.bus == bus_init(c)
                    &&& g.cpu@.regs == post_boot_regs()
                    &&& !g.cpu@.ime && !g.cpu@.ime_pending && !g.cpu@.halted && !g.cpu@.halt_bug
                    &&& g.frame.width == 160 && g.frame.height == 144
                    &&& g.frame.pixels@.len() == 160 * 144
                },
                (Err(e), Ok(c)) => rom_short_of_a_bank(c) && e == CartError::TooSmall,
                (Err(e), Err(f)) => e == f,
                _ => false,
            },
    {
        let short = rom.len() < 0x4000;
        let cart = match Cartridge::new(rom) {
            Ok(c) => c,
            Err(e) => return Err(e),
        };
        if short && !cart.is_rom_only() {
            return Err(CartError::TooSmall);
        }
        Ok(GameBoy { cpu: Cpu::new(Bus::new(cart)), frame: FrameBuffer::new(160, 144) })
    }

    /// Everything the game has written to the serial port.
    pub fn serial_output(&self) -> (r: &[u8])
        ensures
            r@ == self.cpu.bus.serial.sent(),
    {
        self.cpu.bus.serial.output()
    }

    /// Runs whole steps until one video frame of T-cycles has passed, and
    /// returns the frame. Input is not wired to the joypad. Stops early at an
    /// opcode that is not an instruction.
    pub fn run_frame(&mut self, buttons: Buttons) -> (r: Result<&FrameBuffer, CpuError>)
        requires
            cpu_wf(old(self).cpu@),
            old(self).cpu@.bus.cycles <= u64::MAX - CYCLES_PER_FRAME - 24,
        ensures
            cpu_wf(final(self).cpu@),
            final(self).frame == old(self).frame,
            ({
                let (t, op) = run_until(old(self).cpu@, (old(self).cpu@.bus.cycles + CYCLES_PER_FRAME) as u64);
                &&& final(self).cpu@ == t
                &&& (r is Ok <==> op is None)
                &&& r matches Err(CpuError::InvalidOpcode { op: o, addr: _ }) ==> op == Some(o)
            }),
            final(self).cpu@.bus.cycles < old(self).cpu@.bus.cycles + CYCLES_PER_FRAME + 24,
            r is Ok ==> final(self).cpu@.bus.cycles >= old(self).cpu@.bus.cycles + CYCLES_PER_FRAME,
    {
        let end = self.cpu.bus.cycles + CYCLES_PER_FRAME;
        while self.cpu.bus.cycles < end
            invariant
                cpu_wf(self.cpu@),
                self.frame == old(self).frame,
                end == old(self).cpu@.bus.cycles + CYCLES_PER_FRAME,
                end <= u64::MAX - 24,
                old(self).cpu@.bus.cycles <= self.cpu@.bus.cycles < end + 24,
                run_until(self.cpu@, end) == run_until(old(self).cpu@, end),
            decreases end + 24 - self.cpu@.bus.cycles,
        {
            proof { lemma_step_advances(self.cpu@); }
            match self.cpu.step() {
                Ok(()) => {},
                Err(e) => return Err(e),
            }
        }
        Ok(&self.frame)
    }

    /// The battery-backed RAM (and clock) image, stamped with wall time
    /// `now`; None without a battery.
    pub fn save_ram(&self, now: u64) -> (r: Option<Vec<u8>>)
        ensures
            r.is_some() == saved_image(self.cpu@.bus.cart.mapper, now).is_some(),
            r matches Some(v) ==> Some(v@) == saved_image(self.cpu@.bus.cart.mapper, now),
    {
        self.cpu.bus.cart.save(now)
    }

    /// Restores a battery image saved at an earlier wall time; `now` lets a
    /// cartridge clock catch up.
    pub fn load_ram(&mut self, data: &[u8], now: u64)
        requires
            cpu_wf(old(self).cpu@),
            load_ok(old(self).cpu@.bus.cart.mapper, data@, now),
        ensures
            cpu_wf(final(self).cpu@),
            final(self).cpu@.bus.cart.mapper == image_loaded(old(self).cpu@.bus.cart.mapper, data@, now),
    {
        self.cpu.bus.cart.load(data, now);
    }

    /// Restores a battery image when the clock arithmetic is sure to fit:
    /// any image is accepted while `now` is more than 2^26 seconds below the
    /// u64 limit. Returns whether it loaded.
    pub fn load_ram_at(&mut self, data: &[u8], now: u64) -> (loaded: bool)
        requires
            cpu_wf(old(self).cpu@),
        ensures
            cpu_wf(final(self).cpu@),
            loaded == (now <= u64::MAX - 0x400_0000),
            loaded ==> final(self).cpu@.bus.cart.mapper == image_loaded(old(self).cpu@.bus.cart.mapper, data@, now),
            !loaded ==> final(self).cpu@ == old(self).cpu@,
    {
        if now > u64::MAX - 0x400_0000 {
            return false;
        }
        proof {
            if let MapperView::Mbc3(v) = self.cpu@.bus.cart.mapper {
                if has_footer(v, data@) {
                    let r = data@.skip(v.ram.len() as int);
                    let c = rtc_restored(v.rtc, r);
                    let (r0, r1, r2, r3, r4) = (r[0], r[1], r[2], r[3], r[4]);
                    assert(r0 & 0x3F < 64 && r1 & 0x3F < 64 && r2 & 0x1F < 32 && ((r3 as u16) | ((r4 as u16 & 1) << 8u16)) < 512) by (bit_vector);
                    assert(clock_total(c) <= 63 + 63 * 60 + 31 * 3600 + 511 * 86400);
                    assert(elapsed(r, now) <= now);
                }
            }
        }
        self.load_ram(data, now);
        true
    }
}

} // verus!
