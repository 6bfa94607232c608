//! ARM7TDMI core: the two-entry prefetch pipeline, condition codes,
//! exceptions, the branches, data processing (in `arm`) and the Thumb
//! formats (in `thumb`). Instructions the core does not execute yet are
//! reported to the caller instead of run.
use vstd::prelude::*;
use crate::gba::bus::{Bus, BusView, bus_wf, clocked, read16_value, read32_value};
use crate::bits::lemma_u32_bits;
use crate::gba::psr::{C, I, Mode, N, Psr, T, V, Z, lemma_flag_keeps_mode, lemma_flag_masks, mode_of};
use crate::gba::registers::{Registers, RegistersView, regs_wf, spsr_slot, switched};
use crate::gba::syscalls::bios_called;
use crate::gba::arm::dp_executed;
use crate::gba::thumb::thumb_stepped;

verus! {

/// Why an instruction could not complete, with the address it sits at.
#[derive(Clone, Copy, PartialEq, Eq, Debug, Structural)]
pub enum ExecError {
    /// An ARM instruction the core does not execute.
    Arm { op: u32, addr: u32 },
    /// A Thumb instruction the core does not execute.
    Thumb { halfword: u16, addr: u32 },
    /// A system call the BIOS does not have.
    UnknownSysCall { function: u32, addr: u32 },
    /// Div or DivArm with a zero divisor.
    DivideByZero { addr: u32 },
    /// A system call given data it cannot process.
    BadArgument { function: u32, addr: u32 },
}

/// What an executed instruction leaves for the host.
#[derive(Clone, Copy, PartialEq, Eq, Debug, Structural)]
pub enum Outcome {
    Done,
    /// MidiKey2Freq: r0 is to receive `base / 2^((180 - key - fine / 256) / 12)`,
    /// a floating-point computation left to the host.
    KeyToFreq { base: u32, key: u32, fine: u32 },
}

pub struct Cpu {
    pub regs: Registers,
    pub bus: Bus,
    /// Prefetch queue: [0] is executed next, [1] the one after.
    pub pipeline: [u32; 2],
    pub flushed: bool,
    /// System calls run in software rather than through a BIOS image.
    pub hle_bios: bool,
    /// The interrupt flags an IntrWait in progress waits for.
    pub intrwait: Option<u16>,
}

pub struct CpuView {
    pub regs: RegistersView,
    pub bus: BusView,
    pub pipeline: Seq<u32>,
    pub flushed: bool,
    pub hle_bios: bool,
    pub intrwait: Option<u16>,
}

impl View for Cpu {
    type V = CpuView;

    open spec fn view(&self) -> CpuView {
        CpuView {
            regs: self.regs@,
            bus: self.bus@,
            pipeline: self.pipeline@,
            flushed: self.flushed,
            hle_bios: self.hle_bios,
            intrwait: self.intrwait,
        }
    }
}

pub open spec fn cpu_wf(c: CpuView) -> bool {
    &&& regs_wf(c.regs)
    &&& bus_wf(c.bus)
    &&& c.pipeline.len() == 2
}

/// Cycle-counter headroom for an instruction and any system call it makes.
pub open spec fn cpu_room(c: CpuView) -> bool {
    c.bus.cycles < 0x3FFF_FFFF_FFFF_FF00
}

pub open spec fn with_reg(c: CpuView, i: int, v: u32) -> CpuView {
    CpuView { regs: RegistersView { r: c.regs.r.update(i, v), ..c.regs }, ..c }
}

pub open spec fn is_thumb(c: CpuView) -> bool {
    c.regs.cpsr.0 & T != 0
}

/// Address of the instruction `step` executes next: r15 runs two
/// instructions ahead.
pub open spec fn exec_addr_of(c: CpuView) -> u32 {
    c.regs.r[15].wrapping_sub(if is_thumb(c) { 4 } else { 8 })
}

/// The pipeline refilled from r15 (alignment masked); r15 ends two
/// instructions past the target.
pub open spec fn flushed_cpu(c: CpuView) -> CpuView {
    if is_thumb(c) {
        let pc = c.regs.r[15] & !1u32;
        let b1 = clocked(c.bus);
        let b2 = clocked(b1);
        let p0 = read16_value(b1, pc) as u32;
        let p1 = read16_value(b2, pc.wrapping_add(2)) as u32;
        CpuView { bus: b2, pipeline: seq![p0, p1], flushed: true, ..with_reg(c, 15, pc.wrapping_add(4)) }
    } else {
        let pc = c.regs.r[15] & !3u32;
        let b1 = clocked(c.bus);
        let b2 = clocked(b1);
        let p0 = read32_value(b1, pc);
        let p1 = read32_value(b2, pc.wrapping_add(4));
        CpuView { bus: b2, pipeline: seq![p0, p1], flushed: true, ..with_reg(c, 15, pc.wrapping_add(8)) }
    }
}

/// Whether condition field `cond` passes under `p`.
pub open spec fn cond_passed(p: Psr, cond: u8) -> bool {
    let n = p.0 & N != 0;
    let z = p.0 & Z != 0;
    let cf = p.0 & C != 0;
    let v = p.0 & V != 0;
    if cond == 0x0 {
        z
    } else if cond == 0x1 {
        !z
    } else if cond == 0x2 {
        cf
    } else if cond == 0x3 {
        !cf
    } else if cond == 0x4 {
        n
    } else if cond == 0x5 {
        !n
    } else if cond == 0x6 {
        v
    } else if cond == 0x7 {
        !v
    } else if cond == 0x8 {
        cf && !z
    } else if cond == 0x9 {
        !cf || z
    } else if cond == 0xA {
        n == v
    } else if cond == 0xB {
        n != v
    } else if cond == 0xC {
        !z && n == v
    } else if cond == 0xD {
        z || n != v
    } else {
        // 0xE always; 0xF never on ARMv4
        cond == 0xE
    }
}

/// The flag bits of `p` with `mask` set or cleared.
pub open spec fn flag_set(p: Psr, mask: u32, on: bool) -> Psr {
    if on { Psr(p.0 | mask) } else { Psr(p.0 & !mask) }
}

/// Exception entry: bank switch, the old CPSR into the new SPSR, ARM state,
/// IRQs masked, the link register, then the vector.
pub open spec fn exception_entered(c: CpuView, vector: u32, mode: Mode, lr: u32) -> CpuView {
    let old = c.regs.cpsr;
    let r1 = switched(c.regs, mode);
    let r2 = match spsr_slot(mode_of(r1.cpsr.0)) {
        Some(i) => RegistersView { spsr: r1.spsr.update(i, old), ..r1 },
        None => r1,
    };
    let r3 = RegistersView { cpsr: flag_set(flag_set(r2.cpsr, T, false), I, true), ..r2 };
    let r4 = RegistersView { r: r3.r.update(14, lr).update(15, vector), ..r3 };
    flushed_cpu(CpuView { regs: r4, ..c })
}

/// The sign-extended word offset of a branch.
pub open spec fn branch_offset(op: u32) -> u32 {
    (((op << 8u32) as i32) >> 6u32) as u32
}

/// The multiplies, swaps, halfword transfers and PSR transfers, which share
/// encoding space with data processing and are decoded before it.
pub open spec fn mul_swap_or_psr(op: u32) -> bool {
    ||| op & 0x0FC0_00F0 == 0x0000_0090
    ||| op & 0x0F80_00F0 == 0x0080_0090
    ||| op & 0x0FB0_0FF0 == 0x0100_0090
    ||| op & 0x0E00_0090 == 0x0000_0090
    ||| op & 0x0FBF_0FFF == 0x010F_0000
    ||| op & 0x0FB0_FFF0 == 0x0120_F000
    ||| op & 0x0FB0_F000 == 0x0320_F000
}

/// An ARM instruction executed, or the error for one the core does not run.
/// With the software BIOS, SWI runs the system call its comment field names.
pub open spec fn arm_executed(c: CpuView, op: u32) -> Result<(CpuView, Outcome), ExecError> {
    if op & 0x0FFF_FFF0 == 0x012F_FF10 {
        // BX: bit 0 of the target selects Thumb state
        let target = c.regs.r[(op & 0xF) as int];
        let c1 = CpuView {
            regs: RegistersView { cpsr: flag_set(c.regs.cpsr, T, target & 1 != 0), ..c.regs },
            ..c
        };
        Ok((flushed_cpu(with_reg(c1, 15, target)), Outcome::Done))
    } else if op & 0x0E00_0000 == 0x0A00_0000 {
        // B / BL: r15 already reads as the instruction + 8
        let c1 = if op & 0x0100_0000 != 0 { with_reg(c, 14, c.regs.r[15].wrapping_sub(4)) } else { c };
        Ok((flushed_cpu(with_reg(c1, 15, c1.regs.r[15].wrapping_add(branch_offset(op)))), Outcome::Done))
    } else if mul_swap_or_psr(op) {
        Err(ExecError::Arm { op, addr: exec_addr_of(c) })
    } else if op & 0x0C00_0000 == 0 {
        dp_executed(c, op)
    } else if op & 0x0F00_0000 == 0x0F00_0000 && c.hle_bios {
        bios_called(c, (op >> 16u32) & 0xFF)
    } else {
        Err(ExecError::Arm { op, addr: exec_addr_of(c) })
    }
}

/// One ARM instruction: shift the pipeline, prefetch, execute when the
/// condition passes, and advance r15 unless the instruction branched.
pub open spec fn arm_stepped(c: CpuView) -> Result<(CpuView, Outcome), ExecError> {
    let op = c.pipeline[0];
    let b1 = clocked(c.bus);
    let c1 = CpuView {
        bus: b1,
        pipeline: seq![c.pipeline[1], read32_value(b1, c.regs.r[15])],
        flushed: false,
        ..c
    };
    let r = if cond_passed(c1.regs.cpsr, (op >> 28u32) as u8) {
        arm_executed(c1, op)
    } else {
        Ok((c1, Outcome::Done))
    };
    match r {
        Ok((c2, o)) => Ok(
            (if c2.flushed { c2 } else { with_reg(c2, 15, c2.regs.r[15].wrapping_add(4)) }, o),
        ),
        Err(e) => Err(e),
    }
}

proof fn lemma_flag_set_wf(r: RegistersView, mask: u32, on: bool)
    requires
        regs_wf(r),
        mask & 0x1F == 0,
    ensures
        regs_wf(RegistersView { cpsr: flag_set(r.cpsr, mask, on), ..r }),
        mode_of(flag_set(r.cpsr, mask, on).0) == mode_of(r.cpsr.0),
{
    lemma_flag_keeps_mode(r.cpsr.0, mask);
}

impl Cpu {
    /// A core at the cartridge entry point, as the BIOS leaves it.
    pub fn new(bus: Bus) -> (cpu: Self)
        requires
            bus_wf(bus@),
            bus@.cycles < 0x4000_0000_0000_0000,
        ensures
            cpu_wf(cpu@),
            cpu@.regs.cpsr == Psr(0x1F),
            cpu@.regs.r == Seq::new(
                16,
                |i: int| if i == 13 { 0x0300_7F00u32 } else if i == 15 { 0x0800_0008u32 } else { 0u32 },
            ),
            cpu@.bus == clocked(clocked(bus@)),
            cpu@.pipeline == seq![
                read32_value(clocked(bus@), 0x0800_0000),
                read32_value(clocked(clocked(bus@)), 0x0800_0004),
            ],
            cpu@.flushed,
            cpu@.hle_bios,
            cpu@.intrwait is None,
    {
        let mut cpu = Cpu {
            regs: Registers::new_post_bios(),
            bus,
            pipeline: [0; 2],
            flushed: false,
            hle_bios: true,
            intrwait: None,
        };
        cpu.regs.set(15, 0x0800_0000);
        proof {
            lemma_flag_masks();
            lemma_u32_bits(0x0800_0000u32);
        }
        cpu.flush();
        assert(cpu@.regs.r =~= Seq::new(
            16,
            |i: int| if i == 13 { 0x0300_7F00u32 } else if i == 15 { 0x0800_0008u32 } else { 0u32 },
        ));
        cpu
    }

    /// Address of the instruction `step` executes next.
    pub fn exec_addr(&self) -> (a: u32)
        requires
            cpu_wf(self@),
        ensures
            a == exec_addr_of(self@),
    {
        let i: u32 = if self.regs.cpsr.thumb() { 2 } else { 4 };
        self.regs.get(15).wrapping_sub(2 * i)
    }

    /// Refills the pipeline after any write to r15, masking the alignment
    /// bits of the target.
    pub fn flush(&mut self)
        requires
            cpu_wf(old(self)@),
            old(self)@.bus.cycles < 0x7FFF_FFFF_FFFF_FFF0,
        ensures
            cpu_wf(final(self)@),
            final(self)@ == flushed_cpu(old(self)@),
    {
        let ghost c0 = self@;
        if self.regs.cpsr.thumb() {
            let pc = self.regs.get(15) & !1u32;
            let p0 = self.bus.read16(pc) as u32;
            let p1 = self.bus.read16(pc.wrapping_add(2)) as u32;
            self.pipeline = [p0, p1];
            self.regs.set(15, pc.wrapping_add(4));
        } else {
            let pc = self.regs.get(15) & !3u32;
            let p0 = self.bus.read32(pc);
            let p1 = self.bus.read32(pc.wrapping_add(4));
            self.pipeline = [p0, p1];
            self.regs.set(15, pc.wrapping_add(8));
        }
        self.flushed = true;
        assert(self@.pipeline =~= flushed_cpu(c0).pipeline);
    }

    /// Whether condition field `cond` passes under the current flags.
    pub fn check_cond(&self, cond: u8) -> (r: bool)
        ensures
            r == cond_passed(self.regs.cpsr, cond),
    {
        let p = self.regs.cpsr;
        let n = p.flag(N);
        let z = p.flag(Z);
        let c = p.flag(C);
        let v = p.flag(V);
        match cond {
            0x0 => z,
            0x1 => !z,
            0x2 => c,
            0x3 => !c,
            0x4 => n,
            0x5 => !n,
            0x6 => v,
            0x7 => !v,
            0x8 => c && !z,
            0x9 => !c || z,
            0xA => n == v,
            0xB => n != v,
            0xC => !z && n == v,
            0xD => z || n != v,
            0xE => true,
            _ => false,  // 0xF: never on ARMv4
        }
    }

    pub(crate) fn set_cpsr_flag(&mut self, mask: u32, on: bool)
        requires
            cpu_wf(old(self)@),
            mask & 0x1F == 0,
        ensures
            cpu_wf(final(self)@),
            final(self)@ == (CpuView {
                regs: RegistersView { cpsr: flag_set(old(self)@.regs.cpsr, mask, on), ..old(self)@.regs },
                ..old(self)@
            }),
    {
        proof { lemma_flag_set_wf(self@.regs, mask, on); }
        self.regs.cpsr.set_flag(mask, on);
    }

    /// Enters an exception (see `exception_entered`).
    pub fn exception(&mut self, vector: u32, mode: Mode, lr: u32)
        requires
            cpu_wf(old(self)@),
            old(self)@.bus.cycles < 0x7FFF_FFFF_FFFF_FFF0,
        ensures
            cpu_wf(final(self)@),
            final(self)@ == exception_entered(old(self)@, vector, mode, lr),
    {
        proof { lemma_flag_masks(); }
        let old = self.regs.cpsr;
        self.regs.switch_mode(mode);
        self.regs.set_spsr(old);
        self.set_cpsr_flag(T, false);
        self.set_cpsr_flag(I, true);
        self.regs.set(14, lr);
        self.regs.set(15, vector);
        self.flush();
    }

    /// Hardware interrupt entry, unless IRQs are masked.
    pub fn irq(&mut self)
        requires
            cpu_wf(old(self)@),
            old(self)@.bus.cycles < 0x7FFF_FFFF_FFFF_FFF0,
        ensures
            cpu_wf(final(self)@),
            final(self)@ == if old(self)@.regs.cpsr.0 & I != 0 {
                old(self)@
            } else {
                exception_entered(old(self)@, 0x18, Mode::Irq, exec_addr_of(old(self)@).wrapping_add(4))
            },
    {
        if self.regs.cpsr.flag(I) {
            return;
        }
        let lr = self.exec_addr().wrapping_add(4);
        self.exception(0x18, Mode::Irq, lr);
    }

    fn arm_bx(&mut self, op: u32)
        requires
            cpu_wf(old(self)@),
            old(self)@.bus.cycles < 0x7FFF_FFFF_FFFF_FFF0,
            op & 0x0FFF_FFF0 == 0x012F_FF10,
        ensures
            cpu_wf(final(self)@),
            arm_executed(old(self)@, op) == Ok::<(CpuView, Outcome), ExecError>((final(self)@, Outcome::Done)),
    {
        proof { lemma_flag_masks(); lemma_u32_bits(op); }
        let target = self.regs.get((op & 0xF) as usize);
        self.set_cpsr_flag(T, target & 1 != 0);
        self.regs.set(15, target);
        self.flush();  // flush masks the alignment bits for the new state
    }

    fn arm_branch(&mut self, op: u32)
        requires
            cpu_wf(old(self)@),
            old(self)@.bus.cycles < 0x7FFF_FFFF_FFFF_FFF0,
            op & 0x0FFF_FFF0 != 0x012F_FF10,
            op & 0x0E00_0000 == 0x0A00_0000,
        ensures
            cpu_wf(final(self)@),
            arm_executed(old(self)@, op) == Ok::<(CpuView, Outcome), ExecError>((final(self)@, Outcome::Done)),
    {
        let offset = (((op << 8) as i32) >> 6) as u32;
        if op & 0x0100_0000 != 0 {
            let lr = self.regs.get(15).wrapping_sub(4);
            self.regs.set(14, lr);
        }
        let target = self.regs.get(15).wrapping_add(offset);
        self.regs.set(15, target);
        self.flush();
    }

    /// Executes one ARM instruction (the pipeline has been advanced).
    pub fn exec_arm(&mut self, op: u32) -> (r: Result<Outcome, ExecError>)
        requires
            cpu_wf(old(self)@),
            old(self)@.bus.cycles < 0x4000_0000_0000_0000,
        ensures
            cpu_wf(final(self)@),
            match arm_executed(old(self)@, op) {
                Ok((c, o)) => r == Ok::<Outcome, ExecError>(o) && final(self)@ == c,
                Err(e) => r == Err::<Outcome, ExecError>(e),
            },
    {
        if op & 0x0FFF_FFF0 == 0x012F_FF10 {
            self.arm_bx(op);
            Ok(Outcome::Done)
        } else if op & 0x0E00_0000 == 0x0A00_0000 {
            self.arm_branch(op);
            Ok(Outcome::Done)
        } else if op & 0x0FC0_00F0 == 0x0000_0090 || op & 0x0F80_00F0 == 0x0080_0090
            || op & 0x0FB0_0FF0 == 0x0100_0090 || op & 0x0E00_0090 == 0x0000_0090
            || op & 0x0FBF_0FFF == 0x010F_0000 || op & 0x0FB0_FFF0 == 0x0120_F000
            || op & 0x0FB0_F000 == 0x0320_F000 {
            let addr = self.exec_addr();
            Err(ExecError::Arm { op, addr })
        } else if op & 0x0C00_0000 == 0 {
            self.arm_data_processing(op)
        } else if op & 0x0F00_0000 == 0x0F00_0000 && self.hle_bios {
            self.bios_call((op >> 16) & 0xFF)
        } else {
            let addr = self.exec_addr();
            Err(ExecError::Arm { op, addr })
        }
    }

    /// Executes one instruction, in ARM or Thumb state.
    pub fn step(&mut self) -> (r: Result<Outcome, ExecError>)
        requires
            cpu_wf(old(self)@),
            cpu_room(old(self)@),
        ensures
            cpu_wf(final(self)@),
            !is_thumb(old(self)@) ==> match arm_stepped(old(self)@) {
                Ok((c, o)) => r == Ok::<Outcome, ExecError>(o) && final(self)@ == c,
                Err(e) => r == Err::<Outcome, ExecError>(e),
            },
            is_thumb(old(self)@) ==> match thumb_stepped(old(self)@) {
                Ok((c, o)) => r == Ok::<Outcome, ExecError>(o) && final(self)@ == c,
                Err(e) => r == Err::<Outcome, ExecError>(e),
            },
    {
        if self.regs.cpsr.thumb() {
            self.step_thumb()
        } else {
            self.step_arm()
        }
    }

    fn step_thumb(&mut self) -> (r: Result<Outcome, ExecError>)
        requires
            cpu_wf(old(self)@),
            cpu_room(old(self)@),
            is_thumb(old(self)@),
        ensures
            cpu_wf(final(self)@),
            match thumb_stepped(old(self)@) {
                Ok((c, o)) => r == Ok::<Outcome, ExecError>(o) && final(self)@ == c,
                Err(e) => r == Err::<Outcome, ExecError>(e),
            },
    {
        self.flushed = false;
        let op = self.pipeline[0] as u16;
        let next = self.bus.read16(self.regs.get(15)) as u32;
        self.pipeline = [self.pipeline[1], next];
        let ghost t1 = self@;
        assert(t1.pipeline =~= seq![old(self)@.pipeline[1], read16_value(t1.bus, old(self)@.regs.r[15]) as u32]);
        let outcome = match self.exec_thumb(op) {
            Ok(o) => o,
            Err(e) => {
                return Err(e);
            },
        };
        if !self.flushed {
            let pc = self.regs.get(15).wrapping_add(2);
            self.regs.set(15, pc);
        }
        Ok(outcome)
    }

    fn step_arm(&mut self) -> (r: Result<Outcome, ExecError>)
        requires
            cpu_wf(old(self)@),
            cpu_room(old(self)@),
            !is_thumb(old(self)@),
        ensures
            cpu_wf(final(self)@),
            match arm_stepped(old(self)@) {
                Ok((c, o)) => r == Ok::<Outcome, ExecError>(o) && final(self)@ == c,
                Err(e) => r == Err::<Outcome, ExecError>(e),
            },
    {
        self.flushed = false;
        let op = self.pipeline[0];
        let next = self.bus.read32(self.regs.get(15));
        self.pipeline = [self.pipeline[1], next];
        let ghost c1 = self@;
        assert(c1.pipeline =~= seq![old(self)@.pipeline[1], read32_value(c1.bus, old(self)@.regs.r[15])]);
        let mut outcome = Outcome::Done;
        if self.check_cond((op >> 28) as u8) {
            match self.exec_arm(op) {
                Ok(o) => {
                    outcome = o;
                },
                Err(e) => {
                    return Err(e);
                },
            }
        }
        if !self.flushed {
            let pc = self.regs.get(15).wrapping_add(4);
            self.regs.set(15, pc);
        }
        Ok(outcome)
    }
}

} // verus!
