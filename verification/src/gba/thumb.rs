//! The Thumb (16-bit) instruction set: thin encodings over the ARM shifter,
//! adder and flag updates. Formats 1-6 (shifts, add/subtract, immediate ALU,
//! register ALU, high registers with BX, PC-relative load) execute; the
//! memory, stack, branch and SWI formats are reported to the caller.
use vstd::prelude::*;
use crate::bits::lemma_opcode_fields;
use crate::gba::arm::{
    add_carry, carry_in, nz_set, nzc_set, nzcv_set, shifted, with_cpsr,
};
use crate::gba::bus::{clocked, read16_value, read32_value};
use crate::gba::cpu::{Cpu, CpuView, ExecError, Outcome, cpu_wf, exec_addr_of, flag_set, flushed_cpu, with_reg};
use crate::gba::psr::{C, T, lemma_flag_masks};

verus! {

/// Format 1: move shifted register (LSL/LSR/ASR by an immediate).
pub open spec fn t_shift_imm_done(c: CpuView, h: u16) -> CpuView {
    let ty = ((h >> 11u16) & 3) as u32;
    let amount = ((h >> 6u16) & 0x1F) as u32;
    let value = c.regs.r[((h >> 3u16) & 7) as int];
    let (r, k) = shifted(ty, value, amount, true, c.regs.cpsr.0 & C != 0);
    with_reg(with_cpsr(c, nzc_set(c.regs.cpsr, r, k)), (h & 7) as int, r)
}

/// Format 2: add or subtract a register or a 3-bit immediate.
pub open spec fn t_add_sub_done(c: CpuView, h: u16) -> CpuView {
    let rs = c.regs.r[((h >> 3u16) & 7) as int];
    let field = ((h >> 6u16) & 7) as u32;
    let operand = if h & 0x400 != 0 { field } else { c.regs.r[field as int] };
    let t = if h & 0x200 != 0 { add_carry(rs, !operand, 1) } else { add_carry(rs, operand, 0) };
    with_reg(with_cpsr(c, nzcv_set(c.regs.cpsr, t)), (h & 7) as int, t.0)
}

/// Format 3: MOV, CMP, ADD, SUB with an 8-bit immediate.
pub open spec fn t_alu_imm_done(c: CpuView, h: u16) -> CpuView {
    let rd = ((h >> 8u16) & 7) as int;
    let imm = (h & 0xFF) as u32;
    let v = c.regs.r[rd];
    let p = c.regs.cpsr;
    let sub = (h >> 11u16) & 3;
    if sub == 0 {
        with_reg(with_cpsr(c, nz_set(p, imm)), rd, imm)
    } else if sub == 1 {
        with_cpsr(c, nzcv_set(p, add_carry(v, !imm, 1)))
    } else if sub == 2 {
        with_reg(with_cpsr(c, nzcv_set(p, add_carry(v, imm, 0))), rd, add_carry(v, imm, 0).0)
    } else {
        with_reg(with_cpsr(c, nzcv_set(p, add_carry(v, !imm, 1))), rd, add_carry(v, !imm, 1).0)
    }
}

/// A logical register result: N and Z set, written to `rd`.
pub open spec fn logic_written(c: CpuView, rd: int, r: u32) -> CpuView {
    with_reg(with_cpsr(c, nz_set(c.regs.cpsr, r)), rd, r)
}

/// An arithmetic register result: all four flags set, written to `rd`.
pub open spec fn arith_written(c: CpuView, rd: int, t: (u32, bool, bool)) -> CpuView {
    with_reg(with_cpsr(c, nzcv_set(c.regs.cpsr, t)), rd, t.0)
}

/// Format 4: the sixteen register ALU operations. Shifts by register and
/// MUL take one internal cycle; MUL leaves C unchanged.
pub open spec fn t_alu_reg_done(c: CpuView, h: u16) -> CpuView {
    let rd = (h & 7) as int;
    let a = c.regs.r[rd];
    let b = c.regs.r[((h >> 3u16) & 7) as int];
    let p = c.regs.cpsr;
    let sub = (h >> 6u16) & 0xF;
    if sub == 0x0 {
        logic_written(c, rd, a & b)
    } else if sub == 0x1 {
        logic_written(c, rd, a ^ b)
    } else if sub == 0x2 || sub == 0x3 || sub == 0x4 || sub == 0x7 {
        let ty: u32 = if sub == 0x2 { 0 } else if sub == 0x3 { 1 } else if sub == 0x4 { 2 } else { 3 };
        let (r, k) = shifted(ty, a, b & 0xFF, false, p.0 & C != 0);
        with_reg(with_cpsr(CpuView { bus: clocked(c.bus), ..c }, nzc_set(p, r, k)), rd, r)
    } else if sub == 0x5 {
        arith_written(c, rd, add_carry(a, b, carry_in(c)))
    } else if sub == 0x6 {
        arith_written(c, rd, add_carry(a, !b, carry_in(c)))
    } else if sub == 0x8 {
        with_cpsr(c, nz_set(p, a & b))
    } else if sub == 0x9 {
        arith_written(c, rd, add_carry(0, !b, 1))
    } else if sub == 0xA {
        with_cpsr(c, nzcv_set(p, add_carry(a, !b, 1)))
    } else if sub == 0xB {
        with_cpsr(c, nzcv_set(p, add_carry(a, b, 0)))
    } else if sub == 0xC {
        logic_written(c, rd, a | b)
    } else if sub == 0xD {
        logic_written(CpuView { bus: clocked(c.bus), ..c }, rd, a.wrapping_mul(b))
    } else if sub == 0xE {
        logic_written(c, rd, a & !b)
    } else {
        logic_written(c, rd, !b)
    }
}

/// What the Thumb register ALU writes to rd, from rd's old value `a` and
/// rs's value `b`: AND keeps the bits of `a` that `b` has, ORR sets `b`'s
/// bits, BIC clears them, EOR flips them, MVN complements `b`; ADC adds
/// with the carry, SBC undoes an addition of `b` (one more when the carry
/// is clear), NEG negates `b` and MUL multiplies, all modulo 2^32.
#[verifier::spinoff_prover]
#[verifier::rlimit(40)]
pub proof fn lemma_thumb_alu_results(c: CpuView, h: u16)
    requires
        c.regs.r.len() == 16,
    ensures
        ({
            let rd = (h & 7) as int;
            let a = c.regs.r[rd];
            let b = c.regs.r[((h >> 3u16) & 7) as int];
            let r = t_alu_reg_done(c, h).regs.r[rd];
            let sub = (h >> 6u16) & 0xF;
            &&& sub == 0x0 ==> r & b == a & b && r & !b == 0
            &&& sub == 0x1 ==> r ^ a == b
            &&& sub == 0x5 ==> r == (a + b + carry_in(c)) % 0x1_0000_0000
            &&& sub == 0x6 ==> (r + b + 1 - carry_in(c)) % 0x1_0000_0000 == a
            &&& sub == 0x9 ==> (r + b) % 0x1_0000_0000 == 0
            &&& sub == 0xC ==> r & b == b && r & !b == a & !b
            &&& sub == 0xD ==> r == (a * b) % 0x1_0000_0000
            &&& sub == 0xE ==> r & b == 0 && r & !b == a & !b
            &&& sub == 0xF ==> r ^ b == 0xFFFF_FFFF
        }),
{
    let rd = (h & 7) as int;
    let a = c.regs.r[rd];
    let b = c.regs.r[((h >> 3u16) & 7) as int];
    assert((h & 7) < 8 && ((h >> 3u16) & 7) < 8) by (bit_vector);
    assert({
        &&& (a & b) & b == a & b
        &&& (a & b) & !b == 0
        &&& (a ^ b) ^ a == b
        &&& (a | b) & b == b
        &&& (a | b) & !b == a & !b
        &&& (a & !b) & b == 0
        &&& (a & !b) & !b == a & !b
        &&& !b ^ b == 0xFFFF_FFFF
        &&& !b == 0xFFFF_FFFF - b
    }) by (bit_vector);
    let sub = (h >> 6u16) & 0xF;
    let r = t_alu_reg_done(c, h).regs.r[rd];
    if sub == 0x0 {
        assert(r == a & b);
    } else if sub == 0x1 {
        assert(r == a ^ b);
    } else if sub == 0x5 {
        assert(r == add_carry(a, b, carry_in(c)).0);
    } else if sub == 0x6 {
        assert(r == add_carry(a, !b, carry_in(c)).0);
    } else if sub == 0x9 {
        assert(r == add_carry(0, !b, 1).0);
    } else if sub == 0xC {
        assert(r == a | b);
    } else if sub == 0xD {
        assert(r == a.wrapping_mul(b));
    } else if sub == 0xE {
        assert(r == a & !b);
    } else if sub == 0xF {
        assert(r == !b);
    }
}

/// Format 5: ADD, CMP, MOV on any registers, and BX. Only CMP sets flags; a
/// write to r15 refills the pipeline.
pub open spec fn t_hi_reg_done(c: CpuView, h: u16) -> CpuView {
    let rd = ((h & 7) | ((h >> 4u16) & 8)) as int;
    let vs = c.regs.r[((h >> 3u16) & 0xF) as int];
    let sub = (h >> 8u16) & 3;
    if sub == 0 {
        let c1 = with_reg(c, rd, c.regs.r[rd].wrapping_add(vs));
        if rd == 15 { flushed_cpu(c1) } else { c1 }
    } else if sub == 1 {
        with_cpsr(c, nzcv_set(c.regs.cpsr, add_carry(c.regs.r[rd], !vs, 1)))
    } else if sub == 2 {
        let c1 = with_reg(c, rd, vs);
        if rd == 15 { flushed_cpu(c1) } else { c1 }
    } else {
        flushed_cpu(with_reg(with_cpsr(c, flag_set(c.regs.cpsr, T, vs & 1 != 0)), 15, vs))
    }
}

/// Format 6: load a word PC-relative (bit 1 of the PC reads as 0), then one
/// internal cycle.
pub open spec fn t_pc_load_done(c: CpuView, h: u16) -> CpuView {
    let base = c.regs.r[15] & !2u32;
    let addr = base.wrapping_add(((h & 0xFF) as u32 * 4) as u32);
    let b1 = clocked(c.bus);
    let v = read32_value(b1, addr);
    with_reg(CpuView { bus: clocked(b1), ..c }, ((h >> 8u16) & 7) as int, v)
}

/// A Thumb instruction executed, or the error for one the core does not run.
#[verifier::opaque]
pub open spec fn thumb_executed(c: CpuView, h: u16) -> Result<(CpuView, Outcome), ExecError> {
    let top = h >> 12u16;
    if top <= 1 {
        if h >> 11u16 == 3 {
            Ok((t_add_sub_done(c, h), Outcome::Done))
        } else {
            Ok((t_shift_imm_done(c, h), Outcome::Done))
        }
    } else if top <= 3 {
        Ok((t_alu_imm_done(c, h), Outcome::Done))
    } else if top == 4 {
        let k = (h >> 10u16) & 3;
        if k == 0 {
            Ok((t_alu_reg_done(c, h), Outcome::Done))
        } else if k == 1 {
            Ok((t_hi_reg_done(c, h), Outcome::Done))
        } else {
            Ok((t_pc_load_done(c, h), Outcome::Done))
        }
    } else {
        Err(ExecError::Thumb { halfword: h, addr: exec_addr_of(c) })
    }
}

/// One Thumb instruction: shift the pipeline, prefetch a halfword, execute,
/// and advance r15 unless the instruction branched.
pub open spec fn thumb_stepped(c: CpuView) -> Result<(CpuView, Outcome), ExecError> {
    let op = c.pipeline[0] as u16;
    let b1 = clocked(c.bus);
    let c1 = CpuView {
        bus: b1,
        pipeline: seq![c.pipeline[1], read16_value(b1, c.regs.r[15]) as u32],
        flushed: false,
        ..c
    };
    match thumb_executed(c1, op) {
        Ok((c2, o)) => Ok(
            (if c2.flushed { c2 } else { with_reg(c2, 15, c2.regs.r[15].wrapping_add(2)) }, o),
        ),
        Err(e) => Err(e),
    }
}

impl Cpu {
    #[verifier::spinoff_prover]
    fn t_shift_imm(&mut self, op: u16)
        requires
            cpu_wf(old(self)@),
        ensures
            cpu_wf(final(self)@),
            final(self)@ == t_shift_imm_done(old(self)@, op),
    {
        proof { lemma_opcode_fields(0, op); }
        let ty = ((op >> 11) & 3) as u32;
        let amount = ((op >> 6) & 0x1F) as u32;
        let value = self.regs.get(((op >> 3) & 7) as usize);
        let (result, carry) = self.shift(ty, value, amount, true);
        self.set_nzc(result, carry);
        self.regs.set((op & 7) as usize, result);
    }

    #[verifier::spinoff_prover]
    fn t_add_sub(&mut self, op: u16)
        requires
            cpu_wf(old(self)@),
        ensures
            cpu_wf(final(self)@),
            final(self)@ == t_add_sub_done(old(self)@, op),
    {
        proof { lemma_opcode_fields(0, op); }
        let rs = self.regs.get(((op >> 3) & 7) as usize);
        let field = ((op >> 6) & 7) as u32;
        let operand = if op & 0x400 != 0 { field } else { self.regs.get(field as usize) };
        let result = if op & 0x200 != 0 {
            self.sub_flags(rs, operand, 1, true)
        } else {
            self.add_flags(rs, operand, 0, true)
        };
        self.regs.set((op & 7) as usize, result);
    }

    #[verifier::spinoff_prover]
    fn t_alu_imm(&mut self, op: u16)
        requires
            cpu_wf(old(self)@),
        ensures
            cpu_wf(final(self)@),
            final(self)@ == t_alu_imm_done(old(self)@, op),
    {
        proof { lemma_opcode_fields(0, op); }
        let rd = ((op >> 8) & 7) as usize;
        let imm = (op & 0xFF) as u32;
        let value = self.regs.get(rd);
        let sub = (op >> 11) & 3;
        if sub == 0 {
            self.set_nz(imm);
            self.regs.set(rd, imm);
        } else if sub == 1 {
            self.sub_flags(value, imm, 1, true);
        } else if sub == 2 {
            let r = self.add_flags(value, imm, 0, true);
            self.regs.set(rd, r);
        } else {
            let r = self.sub_flags(value, imm, 1, true);
            self.regs.set(rd, r);
        }
    }

    #[verifier::rlimit(40)]
    #[verifier::spinoff_prover]
    fn t_alu_reg(&mut self, op: u16)
        requires
            cpu_wf(old(self)@),
            old(self)@.bus.cycles < 0x7FFF_FFFF_FFFF_FFF0,
        ensures
            cpu_wf(final(self)@),
            final(self)@ == t_alu_reg_done(old(self)@, op),
    {
        proof { lemma_opcode_fields(0, op); }
        let rd = (op & 7) as usize;
        let a = self.regs.get(rd);
        let b = self.regs.get(((op >> 3) & 7) as usize);
        let cin: u32 = if self.regs.cpsr.flag(C) { 1 } else { 0 };
        let sub = (op >> 6) & 0xF;
        if sub == 0x0 {
            let r = a & b;
            self.set_nz(r);
            self.regs.set(rd, r);
        } else if sub == 0x1 {
            let r = a ^ b;
            self.set_nz(r);
            self.regs.set(rd, r);
        } else if sub == 0x2 || sub == 0x3 || sub == 0x4 || sub == 0x7 {
            let ty: u32 = if sub == 0x2 { 0 } else if sub == 0x3 { 1 } else if sub == 0x4 { 2 } else { 3 };
            self.bus.idle();
            let (r, carry) = self.shift(ty, a, b & 0xFF, false);
            self.set_nzc(r, carry);
            self.regs.set(rd, r);
        } else if sub == 0x5 {
            let r = self.add_flags(a, b, cin, true);
            self.regs.set(rd, r);
        } else if sub == 0x6 {
            let r = self.sub_flags(a, b, cin, true);
            self.regs.set(rd, r);
        } else if sub == 0x8 {
            self.set_nz(a & b);
        } else if sub == 0x9 {
            let r = self.sub_flags(0, b, 1, true);
            self.regs.set(rd, r);
        } else if sub == 0xA {
            self.sub_flags(a, b, 1, true);
        } else if sub == 0xB {
            self.add_flags(a, b, 0, true);
        } else if sub == 0xC {
            let r = a | b;
            self.set_nz(r);
            self.regs.set(rd, r);
        } else if sub == 0xD {
            self.bus.idle();
            let r = a.wrapping_mul(b);
            self.set_nz(r);
            self.regs.set(rd, r);
        } else if sub == 0xE {
            let r = a & !b;
            self.set_nz(r);
            self.regs.set(rd, r);
        } else {
            let r = !b;
            self.set_nz(r);
            self.regs.set(rd, r);
        }
    }

    #[verifier::spinoff_prover]
    fn t_hi_reg_bx(&mut self, op: u16)
        requires
            cpu_wf(old(self)@),
            old(self)@.bus.cycles < 0x7FFF_FFFF_FFFF_FFF0,
        ensures
            cpu_wf(final(self)@),
            final(self)@ == t_hi_reg_done(old(self)@, op),
    {
        proof { lemma_opcode_fields(0, op); lemma_flag_masks(); }
        let rd = ((op & 7) | ((op >> 4) & 8)) as usize;
        let vs = self.regs.get(((op >> 3) & 0xF) as usize);
        let sub = (op >> 8) & 3;
        if sub == 0 {
            let r = self.regs.get(rd).wrapping_add(vs);
            self.regs.set(rd, r);
            if rd == 15 {
                self.flush();
            }
        } else if sub == 1 {
            let vd = self.regs.get(rd);
            self.sub_flags(vd, vs, 1, true);
        } else if sub == 2 {
            self.regs.set(rd, vs);
            if rd == 15 {
                self.flush();
            }
        } else {
            self.set_cpsr_flag(T, vs & 1 != 0);
            self.regs.set(15, vs);
            self.flush();
        }
    }

    #[verifier::spinoff_prover]
    fn t_pc_load(&mut self, op: u16)
        requires
            cpu_wf(old(self)@),
            old(self)@.bus.cycles < 0x7FFF_FFFF_FFFF_FFF0,
        ensures
            cpu_wf(final(self)@),
            final(self)@ == t_pc_load_done(old(self)@, op),
    {
        proof { lemma_opcode_fields(0, op); }
        let base = self.regs.get(15) & !2u32;
        let addr = base.wrapping_add((op & 0xFF) as u32 * 4);
        let v = self.bus.read32(addr);
        self.bus.idle();
        self.regs.set(((op >> 8) & 7) as usize, v);
    }

    /// Executes one Thumb instruction (the pipeline has been advanced).
    #[verifier::spinoff_prover]
    pub fn exec_thumb(&mut self, op: u16) -> (r: Result<Outcome, ExecError>)
        requires
            cpu_wf(old(self)@),
            old(self)@.bus.cycles < 0x7FFF_FFFF_FFFF_FFF0,
        ensures
            cpu_wf(final(self)@),
            match thumb_executed(old(self)@, op) {
                Ok((c, o)) => r == Ok::<Outcome, ExecError>(o) && final(self)@ == c,
                Err(e) => r == Err::<Outcome, ExecError>(e),
            },
    {
        reveal(thumb_executed);
        proof { lemma_opcode_fields(0, op); }
        let top = op >> 12;
        if top <= 1 {
            if op >> 11 == 3 {
                self.t_add_sub(op);
            } else {
                self.t_shift_imm(op);
            }
        } else if top <= 3 {
            self.t_alu_imm(op);
        } else if top == 4 {
            let k = (op >> 10) & 3;
            if k == 0 {
                self.t_alu_reg(op);
            } else if k == 1 {
                self.t_hi_reg_bx(op);
            } else {
                self.t_pc_load(op);
            }
        } else {
            let addr = self.exec_addr();
            return Err(ExecError::Thumb { halfword: op, addr });
        }
        Ok(Outcome::Done)
    }
}

} // verus!
