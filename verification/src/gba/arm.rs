//! The ARM7TDMI arithmetic: the barrel shifter, the adder with its carry and
//! overflow, the condition-flag updates, and the ARM data-processing
//! instructions built on them.
use vstd::prelude::*;
use crate::bits::lemma_opcode_fields;
use crate::gba::bus::{BusView, clocked};
use crate::gba::cpu::{Cpu, CpuView, ExecError, Outcome, cpu_wf, exec_addr_of, flag_set, flushed_cpu, with_reg};
use crate::gba::psr::{C, N, Psr, V, Z, lemma_flag_keeps_mode, mode_of, valid_mode_bits};
use crate::gba::registers::{RegistersView, regs_wf, spsr_slot, switched};

verus! {

// ------------------------------------------------------------------ shifter

/// `v` rotated right by `m`, for `0 < m < 32`.
pub open spec fn ror(v: u32, m: u32) -> u32 {
    (v >> m) | (v << ((32 - m) as u32))
}

/// The barrel shifter: shift type `ty` (LSL, LSR, ASR, ROR) of `v` by `n`,
/// with the carry out; `c` is the carry flag coming in. An immediate amount
/// of 0 encodes LSR/ASR #32 and RRX; a register amount of 0 shifts nothing.
pub open spec fn shifted(ty: u32, v: u32, n: u32, imm: bool, c: bool) -> (u32, bool) {
    if ty == 0 {
        if n == 0 {
            (v, c)
        } else if n < 32 {
            (v << n, (v >> ((32 - n) as u32)) & 1 != 0)
        } else if n == 32 {
            (0, v & 1 != 0)
        } else {
            (0, false)
        }
    } else if ty == 1 {
        let m: u32 = if imm && n == 0 { 32 } else { n };
        if m == 0 {
            (v, c)
        } else if m < 32 {
            (v >> m, (v >> ((m - 1) as u32)) & 1 != 0)
        } else if m == 32 {
            (0, v >> 31u32 != 0)
        } else {
            (0, false)
        }
    } else if ty == 2 {
        let m: u32 = if imm && n == 0 { 32 } else { n };
        if m == 0 {
            (v, c)
        } else if m < 32 {
            (((v as i32) >> m) as u32, (v >> ((m - 1) as u32)) & 1 != 0)
        } else {
            (if v >> 31u32 != 0 { 0xFFFF_FFFFu32 } else { 0u32 }, v >> 31u32 != 0)
        }
    } else {
        if imm && n == 0 {
            ((if c { 0x8000_0000u32 } else { 0u32 }) | (v >> 1u32), v & 1 != 0)
        } else if n == 0 {
            (v, c)
        } else if n % 32 == 0 {
            (v, v >> 31u32 != 0)
        } else {
            (ror(v, n % 32), ror(v, n % 32) >> 31u32 != 0)
        }
    }
}

/// Runs the barrel shifter (see `shifted`).
#[verifier::spinoff_prover]
pub fn barrel(ty: u32, v: u32, n: u32, imm: bool, c: bool) -> (r: (u32, bool))
    ensures
        r == shifted(ty, v, n, imm, c),
{
    if ty == 0 {
        if n == 0 {
            (v, c)
        } else if n < 32 {
            (v << n, (v >> (32 - n)) & 1 != 0)
        } else if n == 32 {
            (0, v & 1 != 0)
        } else {
            (0, false)
        }
    } else if ty == 1 {
        let m: u32 = if imm && n == 0 { 32 } else { n };
        if m == 0 {
            (v, c)
        } else if m < 32 {
            (v >> m, (v >> (m - 1)) & 1 != 0)
        } else if m == 32 {
            (0, v >> 31 != 0)
        } else {
            (0, false)
        }
    } else if ty == 2 {
        let m: u32 = if imm && n == 0 { 32 } else { n };
        if m == 0 {
            (v, c)
        } else if m < 32 {
            (((v as i32) >> m) as u32, (v >> (m - 1)) & 1 != 0)
        } else {
            (if v >> 31 != 0 { 0xFFFF_FFFFu32 } else { 0u32 }, v >> 31 != 0)
        }
    } else {
        if imm && n == 0 {
            ((if c { 0x8000_0000u32 } else { 0u32 }) | (v >> 1), v & 1 != 0)
        } else if n == 0 {
            (v, c)
        } else if n % 32 == 0 {
            (v, v >> 31 != 0)
        } else {
            let m = n % 32;
            let r = (v >> m) | (v << (32 - m));
            (r, r >> 31 != 0)
        }
    }
}

// ------------------------------------------------------------------ adder

/// `a + b + cin` on 32 bits: the sum, the carry out, and whether the signed
/// sum overflowed. Subtraction `a - b` with borrow is `a + !b + carry`.
pub open spec fn add_carry(a: u32, b: u32, cin: u32) -> (u32, bool, bool) {
    let wide = a as int + b as int + cin as int;
    let sw = (a as i32) as int + (b as i32) as int + cin as int;
    ((wide % 0x1_0000_0000) as u32, wide > 0xFFFF_FFFF, sw < -0x8000_0000 || sw > 0x7FFF_FFFF)
}

#[verifier::spinoff_prover]
pub fn add_with_carry(a: u32, b: u32, cin: u32) -> (r: (u32, bool, bool))
    requires
        cin <= 1,
    ensures
        r == add_carry(a, b, cin),
{
    let wide: u64 = a as u64 + b as u64 + cin as u64;
    let sw: i64 = (a as i32) as i64 + (b as i32) as i64 + cin as i64;
    ((wide % 0x1_0000_0000) as u32, wide > 0xFFFF_FFFF, sw < -0x8000_0000 || sw > 0x7FFF_FFFF)
}

// ------------------------------------------------------------------ flags

/// N and Z from a result.
pub open spec fn nz_set(p: Psr, r: u32) -> Psr {
    flag_set(flag_set(p, N, r >= 0x8000_0000), Z, r == 0)
}

/// N and Z from a result, C from the shifter.
pub open spec fn nzc_set(p: Psr, r: u32, c: bool) -> Psr {
    flag_set(nz_set(p, r), C, c)
}

/// All four flags from an addition.
pub open spec fn nzcv_set(p: Psr, t: (u32, bool, bool)) -> Psr {
    flag_set(nzc_set(p, t.0, t.1), V, t.2)
}

pub open spec fn with_cpsr(c: CpuView, p: Psr) -> CpuView {
    CpuView { regs: RegistersView { cpsr: p, ..c.regs }, ..c }
}

pub open spec fn carry_in(c: CpuView) -> u32 {
    if c.regs.cpsr.0 & C != 0 { 1 } else { 0 }
}

/// The current mode's SPSR (User and System read the CPSR).
pub open spec fn spsr_of(r: RegistersView) -> Psr {
    match spsr_slot(mode_of(r.cpsr.0)) {
        Some(i) => r.spsr[i],
        None => r.cpsr,
    }
}

// ------------------------------------------------------------------ data processing

/// Operand 2 of a data-processing instruction: a rotated 8-bit immediate, or
/// rm through the shifter by an immediate or by the bottom byte of rs (one
/// internal cycle; r15 then reads 4 further on). Gives the value, the
/// shifter carry and the bus after.
pub open spec fn operand2(c: CpuView, op: u32) -> (u32, bool, BusView) {
    let cf = c.regs.cpsr.0 & C != 0;
    if op & 0x200_0000 != 0 {
        let rot = (op >> 8u32) & 0xF;
        let imm = op & 0xFF;
        if rot == 0 {
            (imm, cf, c.bus)
        } else {
            (ror(imm, (rot * 2) as u32), ror(imm, (rot * 2) as u32) >> 31u32 != 0, c.bus)
        }
    } else {
        let rm = (op & 0xF) as int;
        let ty = (op >> 5u32) & 3;
        if op & 0x10 != 0 {
            let amount = c.regs.r[((op >> 8u32) & 0xF) as int] & 0xFF;
            let value = if rm == 15 { c.regs.r[15].wrapping_add(4) } else { c.regs.r[rm] };
            let (v, k) = shifted(ty, value, amount, false, cf);
            (v, k, clocked(c.bus))
        } else {
            let (v, k) = shifted(ty, c.regs.r[rm], (op >> 7u32) & 0x1F, true, cf);
            (v, k, c.bus)
        }
    }
}

/// A logical result, setting N, Z and the shifter carry when `set`.
pub open spec fn logic_result(r: u32, sc: bool, set: bool, p: Psr) -> (u32, Psr) {
    (r, if set { nzc_set(p, r, sc) } else { p })
}

/// An arithmetic result, setting all four flags when `set`.
pub open spec fn arith_result(t: (u32, bool, bool), set: bool, p: Psr) -> (u32, Psr) {
    (t.0, if set { nzcv_set(p, t) } else { p })
}

/// The sixteen data-processing opcodes: the result and the new CPSR.
#[verifier::opaque]
pub open spec fn dp_alu(opcode: u32, rn: u32, op2: u32, cin: u32, sc: bool, set: bool, p: Psr) -> (u32, Psr) {
    if opcode == 0x0 {
        logic_result(rn & op2, sc, set, p)  // AND
    } else if opcode == 0x1 {
        logic_result(rn ^ op2, sc, set, p)  // EOR
    } else if opcode == 0x2 {
        arith_result(add_carry(rn, !op2, 1), set, p)  // SUB
    } else if opcode == 0x3 {
        arith_result(add_carry(op2, !rn, 1), set, p)  // RSB
    } else if opcode == 0x4 {
        arith_result(add_carry(rn, op2, 0), set, p)  // ADD
    } else if opcode == 0x5 {
        arith_result(add_carry(rn, op2, cin), set, p)  // ADC
    } else if opcode == 0x6 {
        arith_result(add_carry(rn, !op2, cin), set, p)  // SBC
    } else if opcode == 0x7 {
        arith_result(add_carry(op2, !rn, cin), set, p)  // RSC
    } else if opcode == 0x8 {
        logic_result(rn & op2, sc, true, p)  // TST
    } else if opcode == 0x9 {
        logic_result(rn ^ op2, sc, true, p)  // TEQ
    } else if opcode == 0xA {
        arith_result(add_carry(rn, !op2, 1), true, p)  // CMP
    } else if opcode == 0xB {
        arith_result(add_carry(rn, op2, 0), true, p)  // CMN
    } else if opcode == 0xC {
        logic_result(rn | op2, sc, set, p)  // ORR
    } else if opcode == 0xD {
        logic_result(op2, sc, set, p)  // MOV
    } else if opcode == 0xE {
        logic_result(rn & !op2, sc, set, p)  // BIC
    } else {
        logic_result(!op2, sc, set, p)  // MVN
    }
}

/// What the data-processing opcodes write to rd. The logical ones, bit by
/// bit: AND keeps the bits of rn that op2 has, ORR sets op2's bits in rn,
/// BIC clears op2's bits in rn, EOR flips them, MVN is op2's complement.
/// The arithmetic ones modulo 2^32: SUB and SBC undo an addition of op2
/// (SBC borrowing one more when the carry is clear), RSB and RSC undo one
/// of rn, ADD and ADC add (ADC the carry too).
#[verifier::spinoff_prover]
pub proof fn lemma_dp_alu_results(rn: u32, op2: u32, cin: u32, sc: bool, set: bool, p: Psr)
    requires
        cin <= 1,
    ensures
        dp_alu(0x0, rn, op2, cin, sc, set, p).0 & op2 == rn & op2,
        dp_alu(0x0, rn, op2, cin, sc, set, p).0 & !op2 == 0,
        dp_alu(0x1, rn, op2, cin, sc, set, p).0 ^ rn == op2,
        (dp_alu(0x2, rn, op2, cin, sc, set, p).0 + op2) % 0x1_0000_0000 == rn,
        (dp_alu(0x3, rn, op2, cin, sc, set, p).0 + rn) % 0x1_0000_0000 == op2,
        dp_alu(0x4, rn, op2, cin, sc, set, p).0 == (rn + op2) % 0x1_0000_0000,
        dp_alu(0x5, rn, op2, cin, sc, set, p).0 == (rn + op2 + cin) % 0x1_0000_0000,
        (dp_alu(0x6, rn, op2, cin, sc, set, p).0 + op2 + 1 - cin) % 0x1_0000_0000 == rn,
        (dp_alu(0x7, rn, op2, cin, sc, set, p).0 + rn + 1 - cin) % 0x1_0000_0000 == op2,
        dp_alu(0xC, rn, op2, cin, sc, set, p).0 & op2 == op2,
        dp_alu(0xC, rn, op2, cin, sc, set, p).0 & !op2 == rn & !op2,
        dp_alu(0xD, rn, op2, cin, sc, set, p).0 == op2,
        dp_alu(0xE, rn, op2, cin, sc, set, p).0 & op2 == 0,
        dp_alu(0xE, rn, op2, cin, sc, set, p).0 & !op2 == rn & !op2,
        dp_alu(0xF, rn, op2, cin, sc, set, p).0 ^ op2 == 0xFFFF_FFFF,
{
    reveal(dp_alu);
    assert({
        &&& (rn & op2) & op2 == rn & op2
        &&& (rn & op2) & !op2 == 0
        &&& (rn ^ op2) ^ rn == op2
        &&& (rn | op2) & op2 == op2
        &&& (rn | op2) & !op2 == rn & !op2
        &&& (rn & !op2) & op2 == 0
        &&& (rn & !op2) & !op2 == rn & !op2
        &&& !op2 ^ op2 == 0xFFFF_FFFF
        &&& !op2 == 0xFFFF_FFFF - op2
        &&& !rn == 0xFFFF_FFFF - rn
    }) by (bit_vector);
}

/// A data-processing instruction. The test opcodes only set flags; a result
/// for r15 branches, and with S also restores the CPSR from the SPSR (an
/// SPSR that names no mode is reported as an error).
#[verifier::opaque]
pub open spec fn dp_executed(c: CpuView, op: u32) -> Result<(CpuView, Outcome), ExecError> {
    let opcode = (op >> 21u32) & 0xF;
    let s = op & 0x10_0000 != 0;
    let rd = ((op >> 12u32) & 0xF) as int;
    let reg_shift = op & 0x200_0000 == 0 && op & 0x10 != 0;
    let (op2, sc, bus) = operand2(c, op);
    let rn_i = ((op >> 16u32) & 0xF) as int;
    let rn = if rn_i == 15 && reg_shift { c.regs.r[15].wrapping_add(4) } else { c.regs.r[rn_i] };
    let (result, p) = dp_alu(opcode, rn, op2, carry_in(c), sc, s && rd != 15, c.regs.cpsr);
    let c1 = with_cpsr(CpuView { bus, ..c }, p);
    if 0x8 <= opcode <= 0xB {
        Ok((c1, Outcome::Done))
    } else if rd != 15 {
        Ok((with_reg(c1, rd, result), Outcome::Done))
    } else if !s {
        Ok((flushed_cpu(with_reg(c1, 15, result)), Outcome::Done))
    } else if !valid_mode_bits(spsr_of(c1.regs).0) {
        Err(ExecError::Arm { op, addr: exec_addr_of(c) })
    } else {
        let sp = spsr_of(c1.regs);
        let regs = RegistersView { cpsr: sp, ..switched(c1.regs, mode_of(sp.0)) };
        Ok((flushed_cpu(with_reg(CpuView { regs, ..c1 }, 15, result)), Outcome::Done))
    }
}

impl Cpu {
    /// The barrel shifter with the current carry flag coming in.
    #[verifier::spinoff_prover]
    pub fn shift(&self, ty: u32, value: u32, amount: u32, imm: bool) -> (r: (u32, bool))
        ensures
            r == shifted(ty, value, amount, imm, self.regs.cpsr.0 & C != 0),
    {
        barrel(ty, value, amount, imm, self.regs.cpsr.flag(C))
    }

    #[verifier::spinoff_prover]
    pub fn set_nz(&mut self, r: u32)
        requires
            cpu_wf(old(self)@),
        ensures
            cpu_wf(final(self)@),
            final(self)@ == with_cpsr(old(self)@, nz_set(old(self)@.regs.cpsr, r)),
    {
        proof { lemma_opcode_fields(0, 0); }
        self.set_cpsr_flag(N, r >= 0x8000_0000);
        self.set_cpsr_flag(Z, r == 0);
    }

    #[verifier::spinoff_prover]
    pub fn set_nzc(&mut self, r: u32, carry: bool)
        requires
            cpu_wf(old(self)@),
        ensures
            cpu_wf(final(self)@),
            final(self)@ == with_cpsr(old(self)@, nzc_set(old(self)@.regs.cpsr, r, carry)),
    {
        proof { lemma_opcode_fields(0, 0); }
        self.set_nz(r);
        self.set_cpsr_flag(C, carry);
    }

    /// `a + b + cin`, setting all four flags when `set`.
    #[verifier::spinoff_prover]
    pub fn add_flags(&mut self, a: u32, b: u32, cin: u32, set: bool) -> (r: u32)
        requires
            cpu_wf(old(self)@),
            cin <= 1,
        ensures
            cpu_wf(final(self)@),
            (r, final(self)@.regs.cpsr) == arith_result(add_carry(a, b, cin), set, old(self)@.regs.cpsr),
            final(self)@ == with_cpsr(old(self)@, final(self)@.regs.cpsr),
    {
        proof { lemma_opcode_fields(0, 0); }
        let t = add_with_carry(a, b, cin);
        if set {
            self.set_nzc(t.0, t.1);
            self.set_cpsr_flag(V, t.2);
        }
        t.0
    }

    /// `a - b` with borrow (`cin` 1 for none), as `a + !b + cin`.
    #[verifier::spinoff_prover]
    pub fn sub_flags(&mut self, a: u32, b: u32, cin: u32, set: bool) -> (r: u32)
        requires
            cpu_wf(old(self)@),
            cin <= 1,
        ensures
            cpu_wf(final(self)@),
            (r, final(self)@.regs.cpsr) == arith_result(add_carry(a, !b, cin), set, old(self)@.regs.cpsr),
            final(self)@ == with_cpsr(old(self)@, final(self)@.regs.cpsr),
    {
        self.add_flags(a, !b, cin, set)
    }

    #[verifier::spinoff_prover]
    fn arm_operand2(&mut self, op: u32) -> (r: (u32, bool))
        requires
            cpu_wf(old(self)@),
            old(self)@.bus.cycles < 0x7FFF_FFFF_FFFF_FFF0,
        ensures
            cpu_wf(final(self)@),
            ({
                let (v, k, b) = operand2(old(self)@, op);
                r == (v, k) && final(self)@ == CpuView { bus: b, ..old(self)@ }
            }),
    {
        proof { lemma_opcode_fields(op, 0); }
        if op & 0x200_0000 != 0 {
            let rot = (op >> 8) & 0xF;
            let imm = op & 0xFF;
            if rot == 0 {
                (imm, self.regs.cpsr.flag(C))
            } else {
                let r = barrel(3, imm, rot * 2, false, false);
                (r.0, r.0 >> 31 != 0)
            }
        } else {
            let rm = (op & 0xF) as usize;
            let ty = (op >> 5) & 3;
            if op & 0x10 != 0 {
                let amount = self.regs.get(((op >> 8) & 0xF) as usize) & 0xFF;
                let value = if rm == 15 { self.regs.get(15).wrapping_add(4) } else { self.regs.get(rm) };
                self.bus.idle();
                self.shift(ty, value, amount, false)
            } else {
                let amount = (op >> 7) & 0x1F;
                let value = self.regs.get(rm);
                self.shift(ty, value, amount, true)
            }
        }
    }

    /// One of the sixteen data-processing opcodes (see `dp_alu`).
    #[verifier::spinoff_prover]
    fn alu_op(&mut self, opcode: u32, rn: u32, op2: u32, cin: u32, sc: bool, set: bool) -> (r: u32)
        requires
            cpu_wf(old(self)@),
            cin <= 1,
        ensures
            cpu_wf(final(self)@),
            (r, final(self)@.regs.cpsr) == dp_alu(opcode, rn, op2, cin, sc, set, old(self)@.regs.cpsr),
            final(self)@ == with_cpsr(old(self)@, final(self)@.regs.cpsr),
    {
        reveal(dp_alu);
        if opcode == 0x0 {
            let r = rn & op2;
            if set { self.set_nzc(r, sc); }
            r
        } else if opcode == 0x1 {
            let r = rn ^ op2;
            if set { self.set_nzc(r, sc); }
            r
        } else if opcode == 0x2 {
            self.sub_flags(rn, op2, 1, set)
        } else if opcode == 0x3 {
            self.sub_flags(op2, rn, 1, set)
        } else if opcode == 0x4 {
            self.add_flags(rn, op2, 0, set)
        } else if opcode == 0x5 {
            self.add_flags(rn, op2, cin, set)
        } else if opcode == 0x6 {
            self.sub_flags(rn, op2, cin, set)
        } else if opcode == 0x7 {
            self.sub_flags(op2, rn, cin, set)
        } else if opcode == 0x8 {
            let r = rn & op2;
            self.set_nzc(r, sc);
            r
        } else if opcode == 0x9 {
            let r = rn ^ op2;
            self.set_nzc(r, sc);
            r
        } else if opcode == 0xA {
            self.sub_flags(rn, op2, 1, true)
        } else if opcode == 0xB {
            self.add_flags(rn, op2, 0, true)
        } else if opcode == 0xC {
            let r = rn | op2;
            if set { self.set_nzc(r, sc); }
            r
        } else if opcode == 0xD {
            if set { self.set_nzc(op2, sc); }
            op2
        } else if opcode == 0xE {
            let r = rn & !op2;
            if set { self.set_nzc(r, sc); }
            r
        } else {
            let r = !op2;
            if set { self.set_nzc(r, sc); }
            r
        }
    }

    /// Executes a data-processing instruction (see `dp_executed`).
    #[verifier::rlimit(60)]
    #[verifier::spinoff_prover]
    pub fn arm_data_processing(&mut self, op: u32) -> (r: Result<Outcome, ExecError>)
        requires
            cpu_wf(old(self)@),
            old(self)@.bus.cycles < 0x7FFF_FFFF_FFFF_FFE0,
        ensures
            match dp_executed(old(self)@, op) {
                Ok((c, o)) => r == Ok::<Outcome, ExecError>(o) && final(self)@ == c && cpu_wf(c),
                Err(e) => r == Err::<Outcome, ExecError>(e) && cpu_wf(final(self)@),
            },
    {
        reveal(dp_executed);
        proof { lemma_opcode_fields(op, 0); }
        let ghost c0 = self@;
        let addr = self.exec_addr();
        let opcode = (op >> 21) & 0xF;
        let s = op & 0x10_0000 != 0;
        let rd = ((op >> 12) & 0xF) as usize;
        let reg_shift = op & 0x200_0000 == 0 && op & 0x10 != 0;
        let (op2, sc) = self.arm_operand2(op);
        let rn_i = ((op >> 16) & 0xF) as usize;
        let rn = if rn_i == 15 && reg_shift { self.regs.get(15).wrapping_add(4) } else { self.regs.get(rn_i) };
        let cin: u32 = if self.regs.cpsr.flag(C) { 1 } else { 0 };
        let set = s && rd != 15;
        let result = self.alu_op(opcode, rn, op2, cin, sc, set);
        if 0x8 <= opcode && opcode <= 0xB {
            return Ok(Outcome::Done);
        }
        if rd != 15 {
            self.regs.set(rd, result);
            return Ok(Outcome::Done);
        }
        if s {
            let sp = self.regs.spsr();
            if !sp.valid() {
                return Err(ExecError::Arm { op, addr });
            }
            self.regs.write_cpsr(sp);
        }
        self.regs.set(15, result);
        self.flush();
        Ok(Outcome::Done)
    }
}

} // verus!
