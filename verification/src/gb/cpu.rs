//! SM83 CPU. Every memory access costs exactly one M-cycle, so an
//! instruction is a sequence of bus cycles: internal cycles (`idle`), reads
//! (`load`) and writes (`store`). The specifications below state each
//! instruction as that sequence over the bus model.
#![verifier::spinoff_prover]
use vstd::prelude::*;
use crate::bits::{lemma_u8_bits, lemma_u16_bits};
use crate::gb::bus::{
    Bus, BusView, bus_wf, bus_ticked, bus_read_value, bus_written, lemma_ticked_cycles,
    lemma_written_keeps_cycles,
};
use crate::gb::registers::{
    Registers, C, H, N, Z, pair, hi_byte, lo_byte, high, low, join, post_boot_regs,
};

verus! {

/// Everything the CPU holds, as plain values.
pub struct CpuView {
    pub regs: Registers,
    pub bus: BusView,
    pub ime: bool,
    pub ime_pending: bool,
    pub halted: bool,
    pub halt_bug: bool,
}

pub open spec fn cpu_wf(s: CpuView) -> bool {
    bus_wf(s.bus)
}

// ------------------------------------------------------------------ arithmetic helpers

pub open spec fn inc16(x: u16) -> u16 {
    if x == 0xFFFF {
        0
    } else {
        (x + 1) as u16
    }
}

pub open spec fn dec16(x: u16) -> u16 {
    if x == 0 {
        0xFFFF
    } else {
        (x - 1) as u16
    }
}

/// 16-bit addition modulo 2^16.
pub open spec fn add16(x: u16, y: u16) -> u16 {
    if x + y > 0xFFFF {
        (x + y - 0x10000) as u16
    } else {
        (x + y) as u16
    }
}

/// 8-bit addition modulo 2^8.
pub open spec fn add8(x: u8, y: u8) -> u8 {
    if x + y > 0xFF {
        (x + y - 0x100) as u8
    } else {
        (x + y) as u8
    }
}

/// 8-bit subtraction modulo 2^8.
pub open spec fn sub8(x: u8, y: u8) -> u8 {
    if x >= y {
        (x - y) as u8
    } else {
        (x - y + 0x100) as u8
    }
}

/// A signed 8-bit offset sign-extended to 16 bits.
pub open spec fn sext(e: u8) -> u16 {
    if e < 0x80 {
        e as u16
    } else {
        (e + 0xFF00) as u16
    }
}

/// F with the four flags given; the low nibble is always zero.
pub open spec fn flags(z: bool, n: bool, h: bool, c: bool) -> u8 {
    ((if z { 0x80int } else { 0 }) + (if n { 0x40int } else { 0 }) + (if h { 0x20int } else { 0 })
        + (if c { 0x10int } else { 0 })) as u8
}

pub open spec fn flag_z(f: u8) -> bool {
    f & Z != 0
}

pub open spec fn flag_n(f: u8) -> bool {
    f & N != 0
}

pub open spec fn flag_h(f: u8) -> bool {
    f & H != 0
}

pub open spec fn flag_c(f: u8) -> bool {
    f & C != 0
}

/// The condition of a conditional jump, call or return (opcode bits 3-4):
/// NZ, Z, NC, C.
pub open spec fn condition(f: u8, op: u8) -> bool {
    let cc = (op >> 3u8) & 3;
    if cc == 0 {
        !flag_z(f)
    } else if cc == 1 {
        flag_z(f)
    } else if cc == 2 {
        !flag_c(f)
    } else {
        flag_c(f)
    }
}

// ------------------------------------------------------------------ registers

/// 8-bit register `i` (0=B 1=C 2=D 3=E 4=H 5=L 7=A; 6 is (HL), not a register).
pub open spec fn reg8(r: Registers, i: u8) -> u8 {
    if i == 0 {
        r.b
    } else if i == 1 {
        r.c
    } else if i == 2 {
        r.d
    } else if i == 3 {
        r.e
    } else if i == 4 {
        r.h
    } else if i == 5 {
        r.l
    } else {
        r.a
    }
}

pub open spec fn with_reg8(r: Registers, i: u8, v: u8) -> Registers {
    if i == 0 {
        Registers { b: v, ..r }
    } else if i == 1 {
        Registers { c: v, ..r }
    } else if i == 2 {
        Registers { d: v, ..r }
    } else if i == 3 {
        Registers { e: v, ..r }
    } else if i == 4 {
        Registers { h: v, ..r }
    } else if i == 5 {
        Registers { l: v, ..r }
    } else {
        Registers { a: v, ..r }
    }
}

pub open spec fn reg_hl(r: Registers) -> u16 {
    pair(r.h, r.l)
}

/// 16-bit register `i` (0=BC 1=DE 2=HL 3=SP).
pub open spec fn reg16(r: Registers, i: u8) -> u16 {
    if i == 0 {
        pair(r.b, r.c)
    } else if i == 1 {
        pair(r.d, r.e)
    } else if i == 2 {
        pair(r.h, r.l)
    } else {
        r.sp
    }
}

pub open spec fn with_reg16(r: Registers, i: u8, v: u16) -> Registers {
    if i == 0 {
        Registers { b: hi_byte(v), c: lo_byte(v), ..r }
    } else if i == 1 {
        Registers { d: hi_byte(v), e: lo_byte(v), ..r }
    } else if i == 2 {
        Registers { h: hi_byte(v), l: lo_byte(v), ..r }
    } else {
        Registers { sp: v, ..r }
    }
}

pub open spec fn with_regs(s: CpuView, r: Registers) -> CpuView {
    CpuView { regs: r, ..s }
}

pub open spec fn with_f(s: CpuView, f: u8) -> CpuView {
    CpuView { regs: Registers { f, ..s.regs }, ..s }
}

pub open spec fn with_pc(s: CpuView, pc: u16) -> CpuView {
    CpuView { regs: Registers { pc, ..s.regs }, ..s }
}

// ------------------------------------------------------------------ bus cycles

/// An internal M-cycle: only the clock advances.
pub open spec fn idle(s: CpuView) -> CpuView {
    CpuView { bus: bus_ticked(s.bus), ..s }
}

/// A read M-cycle: the clock advances, then the byte is read.
pub open spec fn load(s: CpuView, addr: u16) -> (CpuView, u8) {
    let t = idle(s);
    (t, bus_read_value(t.bus, addr))
}

/// A write M-cycle: the clock advances, then the byte is written.
pub open spec fn store(s: CpuView, addr: u16, v: u8) -> CpuView {
    let t = idle(s);
    CpuView { bus: bus_written(t.bus, addr, v), ..t }
}

/// The byte at PC; PC advances, except once after the HALT bug.
pub open spec fn fetched(s: CpuView) -> (CpuView, u8) {
    let (t, v) = load(s, s.regs.pc);
    if t.halt_bug {
        (CpuView { halt_bug: false, ..t }, v)
    } else {
        (with_pc(t, inc16(t.regs.pc)), v)
    }
}

/// A little-endian 16-bit immediate.
pub open spec fn fetched16(s: CpuView) -> (CpuView, u16) {
    let (t1, lo) = fetched(s);
    let (t2, hi) = fetched(t1);
    (t2, pair(hi, lo))
}

/// PUSH: an internal cycle, then the high byte and the low byte, downwards.
pub open spec fn pushed(s: CpuView, v: u16) -> CpuView {
    let t0 = idle(s);
    let sp1 = dec16(t0.regs.sp);
    let t1 = store(CpuView { regs: Registers { sp: sp1, ..t0.regs }, ..t0 }, sp1, hi_byte(v));
    let sp2 = dec16(sp1);
    store(CpuView { regs: Registers { sp: sp2, ..t1.regs }, ..t1 }, sp2, lo_byte(v))
}

/// POP: the low byte, then the high byte, upwards.
pub open spec fn popped(s: CpuView) -> (CpuView, u16) {
    let (t1, lo) = load(s, s.regs.sp);
    let t1b = CpuView { regs: Registers { sp: inc16(s.regs.sp), ..t1.regs }, ..t1 };
    let (t2, hi) = load(t1b, t1b.regs.sp);
    (CpuView { regs: Registers { sp: inc16(t1b.regs.sp), ..t2.regs }, ..t2 }, pair(hi, lo))
}

/// Operand `i` of the 8-bit register field: a register, or the byte at HL.
pub open spec fn operand(s: CpuView, i: u8) -> (CpuView, u8) {
    if i == 6 {
        load(s, reg_hl(s.regs))
    } else {
        (s, reg8(s.regs, i))
    }
}

/// Stores into operand `i`: a register, or the byte at HL.
pub open spec fn operand_set(s: CpuView, i: u8, v: u8) -> CpuView {
    if i == 6 {
        store(s, reg_hl(s.regs), v)
    } else {
        with_regs(s, with_reg8(s.regs, i, v))
    }
}

// ------------------------------------------------------------------ ALU

/// The 8-bit ALU (opcode bits 3-5): ADD ADC SUB SBC AND XOR OR CP.
/// Returns the new A and F.
pub open spec fn alu(kind: u8, a: u8, f: u8, v: u8) -> (u8, u8) {
    if kind <= 1 {
        let c: u8 = if kind == 1 && flag_c(f) { 1 } else { 0 };
        let result = ((a + v + c) % 256) as u8;
        (result, flags(result == 0, false, (a & 0x0F) + (v & 0x0F) + c > 0x0F, a + v + c > 0xFF))
    } else if kind <= 3 || kind == 7 {
        let c: u8 = if kind == 3 && flag_c(f) { 1 } else { 0 };
        let result = ((a - v - c + 512) % 256) as u8;
        (
            if kind == 7 { a } else { result },
            flags(result == 0, true, (a & 0x0F) < (v & 0x0F) + c, a < v + c),
        )
    } else if kind == 4 {
        (a & v, flags(a & v == 0, false, true, false))
    } else if kind == 5 {
        (a ^ v, flags(a ^ v == 0, false, false, false))
    } else {
        (a | v, flags(a | v == 0, false, false, false))
    }
}

/// The shifts and rotates (CB opcode bits 3-5): RLC RRC RL RR SLA SRA SWAP
/// SRL. Returns the result and the carry out.
pub open spec fn rotate(kind: u8, v: u8, carry: bool) -> (u8, bool) {
    let cin: u8 = if carry { 1 } else { 0 };
    if kind == 0 {
        ((v << 1u8) | (v >> 7u8), v & 0x80 != 0)
    } else if kind == 1 {
        ((v >> 1u8) | (v << 7u8), v & 0x01 != 0)
    } else if kind == 2 {
        ((v << 1u8) | cin, v & 0x80 != 0)
    } else if kind == 3 {
        ((v >> 1u8) | (cin << 7u8), v & 0x01 != 0)
    } else if kind == 4 {
        (v << 1u8, v & 0x80 != 0)
    } else if kind == 5 {
        ((v >> 1u8) | (v & 0x80), v & 0x01 != 0)
    } else if kind == 6 {
        ((v << 4u8) | (v >> 4u8), false)
    } else {
        (v >> 1u8, v & 0x01 != 0)
    }
}

/// What each shift and rotate does, in arithmetic: a left shift doubles
/// (dropping bit 7 into the carry), a right shift halves (dropping bit 0
/// into the carry). RLC/RRC feed the dropped bit back in, RL/RR the old
/// carry; SRA keeps bit 7 (the sign) and SRL clears it; SWAP exchanges the
/// nibbles.
#[verifier::spinoff_prover]
pub proof fn lemma_rotate_arith(v: u8, carry: bool)
    ensures
        rotate(0, v, carry).0 == (v * 2) % 256 + v / 128 && rotate(0, v, carry).1 == (v >= 128),
        rotate(1, v, carry).0 == v / 2 + (v % 2) * 128 && rotate(1, v, carry).1 == (v % 2 == 1),
        rotate(2, v, carry).0 == (v * 2) % 256 + (if carry { 1int } else { 0 }) && rotate(2, v, carry).1
            == (v >= 128),
        rotate(3, v, carry).0 == v / 2 + (if carry { 128int } else { 0 }) && rotate(3, v, carry).1 == (
        v % 2 == 1),
        rotate(4, v, carry).0 == (v * 2) % 256 && rotate(4, v, carry).1 == (v >= 128),
        rotate(5, v, carry).0 == v / 2 + (v / 128) * 128 && rotate(5, v, carry).1 == (v % 2 == 1),
        rotate(6, v, carry).0 == (v % 16) * 16 + v / 16 && !rotate(6, v, carry).1,
        rotate(7, v, carry).0 == v / 2 && rotate(7, v, carry).1 == (v % 2 == 1),
{
    let cin: u8 = if carry { 1 } else { 0 };
    assert({
        &&& ((v << 1u8) | (v >> 7u8)) as int == (v * 2) % 256 + v / 128
        &&& ((v >> 1u8) | (v << 7u8)) as int == v / 2 + (v % 2) * 128
        &&& ((v << 1u8) | cin) as int == (v * 2) % 256 + cin
        &&& ((v >> 1u8) | (cin << 7u8)) as int == v / 2 + cin * 128
        &&& (v << 1u8) as int == (v * 2) % 256
        &&& ((v >> 1u8) | (v & 0x80)) as int == v / 2 + (v / 128) * 128
        &&& ((v << 4u8) | (v >> 4u8)) as int == (v % 16) * 16 + v / 16
        &&& (v >> 1u8) as int == v / 2
        &&& (v & 0x80 != 0) == (v >= 128)
        &&& (v & 0x01 != 0) == (v % 2 == 1)
    }) by (bit_vector)
        requires
            cin <= 1,
    ;
}

/// DAA: decimal-adjust A after a BCD addition or subtraction. Returns A and F.
pub open spec fn daa(a: u8, f: u8) -> (u8, u8) {
    let (adj, carry) = if !flag_n(f) {
        let lo: u8 = if flag_h(f) || (a & 0x0F) > 0x09 { 0x06 } else { 0 };
        let hi: u8 = if flag_c(f) || a > 0x99 { 0x60 } else { 0 };
        (add8(a, (lo + hi) as u8), flag_c(f) || a > 0x99)
    } else {
        let lo: u8 = if flag_h(f) { 0x06 } else { 0 };
        let hi: u8 = if flag_c(f) { 0x60 } else { 0 };
        (sub8(a, (lo + hi) as u8), flag_c(f))
    };
    (adj, flags(adj == 0, flag_n(f), false, carry))
}

// ------------------------------------------------------------------ instructions

pub open spec fn ld_rr_nn(s: CpuView, op: u8) -> CpuView {
    let (t, nn) = fetched16(s);
    with_regs(t, with_reg16(t.regs, (op >> 4u8) & 3, nn))
}

/// The address of LD (rr),A / LD A,(rr): BC, DE, or HL for the HL+/HL- forms.
pub open spec fn indirect_addr(r: Registers, op: u8) -> u16 {
    if op & 0xF0 == 0x00 {
        pair(r.b, r.c)
    } else if op & 0xF0 == 0x10 {
        pair(r.d, r.e)
    } else {
        reg_hl(r)
    }
}

/// HL after the post-increment (0x2_) or post-decrement (0x3_) forms.
pub open spec fn hl_stepped(r: Registers, op: u8) -> Registers {
    if op & 0xF0 == 0x20 {
        with_reg16(r, 2, inc16(reg_hl(r)))
    } else if op & 0xF0 == 0x30 {
        with_reg16(r, 2, dec16(reg_hl(r)))
    } else {
        r
    }
}

/// LD (BC),A / LD (DE),A / LD (HL+),A / LD (HL-),A.
pub open spec fn ld_ind_a(s: CpuView, op: u8) -> CpuView {
    let t = store(s, indirect_addr(s.regs, op), s.regs.a);
    with_regs(t, hl_stepped(t.regs, op))
}

/// LD A,(BC) / LD A,(DE) / LD A,(HL+) / LD A,(HL-).
pub open spec fn ld_a_ind(s: CpuView, op: u8) -> CpuView {
    let (t, v) = load(s, indirect_addr(s.regs, op));
    with_regs(t, hl_stepped(Registers { a: v, ..t.regs }, op))
}

/// INC rr / DEC rr: an internal cycle, no flags.
pub open spec fn inc_dec_rr(s: CpuView, op: u8) -> CpuView {
    let t = idle(s);
    let i = (op >> 4u8) & 3;
    let v = reg16(t.regs, i);
    with_regs(t, with_reg16(t.regs, i, if op & 0x08 == 0 { inc16(v) } else { dec16(v) }))
}

/// INC r / DEC r (odd opcodes decrement); C is untouched.
pub open spec fn inc_dec_r(s: CpuView, op: u8) -> CpuView {
    let i = (op >> 3u8) & 7;
    let (t, v0) = operand(s, i);
    let dec = op & 1 == 1;
    let v = if dec { sub8(v0, 1) } else { add8(v0, 1) };
    let t2 = operand_set(t, i, v);
    with_f(
        t2,
        flags(
            v == 0,
            dec,
            if dec { v & 0x0F == 0x0F } else { v & 0x0F == 0 },
            flag_c(t2.regs.f),
        ),
    )
}

pub open spec fn ld_r_n(s: CpuView, op: u8) -> CpuView {
    let (t, v) = fetched(s);
    operand_set(t, (op >> 3u8) & 7, v)
}

/// RLCA / RRCA / RLA / RRA: the CB rotates on A, with Z always cleared.
pub open spec fn rot_a(s: CpuView, op: u8) -> CpuView {
    let (r, c) = rotate((op >> 3u8) & 3, s.regs.a, flag_c(s.regs.f));
    with_regs(s, Registers { a: r, f: flags(false, false, false, c), ..s.regs })
}

/// LD (nn),SP: low byte first.
pub open spec fn ld_nn_sp(s: CpuView) -> CpuView {
    let (t, nn) = fetched16(s);
    let t2 = store(t, nn, lo_byte(t.regs.sp));
    store(t2, inc16(nn), hi_byte(t2.regs.sp))
}

/// ADD HL,rr: an internal cycle; Z is untouched, H and C come from bits 11 and 15.
pub open spec fn add_hl_rr(s: CpuView, op: u8) -> CpuView {
    let t = idle(s);
    let hl = reg_hl(t.regs);
    let v = reg16(t.regs, (op >> 4u8) & 3);
    let f = flags(flag_z(t.regs.f), false, (hl & 0x0FFF) + (v & 0x0FFF) > 0x0FFF, hl + v > 0xFFFF);
    with_regs(t, with_reg16(Registers { f, ..t.regs }, 2, add16(hl, v)))
}

/// JR e: the offset is read; a taken jump costs an internal cycle.
pub open spec fn jr(s: CpuView, take: bool) -> CpuView {
    let (t, e) = fetched(s);
    if take {
        let t2 = idle(t);
        with_pc(t2, add16(t2.regs.pc, sext(e)))
    } else {
        t
    }
}

#[verifier::spinoff_prover]
pub open spec fn daa_op(s: CpuView) -> CpuView {
    let (a, f) = daa(s.regs.a, s.regs.f);
    with_regs(s, Registers { a, f, ..s.regs })
}

/// CPL / SCF / CCF.
pub open spec fn flag_op(s: CpuView, op: u8) -> CpuView {
    let f = s.regs.f;
    if op == 0x2F {
        with_regs(s, Registers { a: (255 - s.regs.a) as u8, f: flags(flag_z(f), true, true, flag_c(f)), ..s.regs })
    } else if op == 0x37 {
        with_f(s, flags(flag_z(f), false, false, true))
    } else {
        with_f(s, flags(flag_z(f), false, false, !flag_c(f)))
    }
}

/// Opcodes 0x00-0x3F.
#[verifier::spinoff_prover]
pub open spec fn exec_block0(s: CpuView, op: u8) -> CpuView {
    if op == 0x00 {
        s
    } else if op & 0x0F == 0x01 {
        ld_rr_nn(s, op)
    } else if op == 0x02 || op == 0x12 || op == 0x22 || op == 0x32 {
        ld_ind_a(s, op)
    } else if op & 0x0F == 0x03 || op & 0x0F == 0x0B {
        inc_dec_rr(s, op)
    } else if op & 7 == 4 || op & 7 == 5 {
        inc_dec_r(s, op)
    } else if op & 7 == 6 {
        ld_r_n(s, op)
    } else if op == 0x07 || op == 0x0F || op == 0x17 || op == 0x1F {
        rot_a(s, op)
    } else if op == 0x08 {
        ld_nn_sp(s)
    } else if op & 0x0F == 0x09 {
        add_hl_rr(s, op)
    } else if op == 0x0A || op == 0x1A || op == 0x2A || op == 0x3A {
        ld_a_ind(s, op)
    } else if op == 0x10 {
        // STOP consumes its padding byte
        fetched(s).0
    } else if op == 0x18 {
        jr(s, true)
    } else if op == 0x20 || op == 0x28 || op == 0x30 || op == 0x38 {
        jr(s, condition(s.regs.f, op))
    } else if op == 0x27 {
        daa_op(s)
    } else {
        flag_op(s, op)
    }
}

/// Interrupts that are both requested and enabled.
pub open spec fn pending(b: BusView) -> u8 {
    b.inte & b.intf & 0x1F
}

/// HALT: with IME off and an interrupt already pending, the CPU does not
/// halt and fails to advance PC once (the HALT bug).
pub open spec fn halt(s: CpuView) -> CpuView {
    if !s.ime && pending(s.bus) != 0 {
        CpuView { halt_bug: true, ..s }
    } else {
        CpuView { halted: true, ..s }
    }
}

/// LD r,r' (0x40-0x7F but 0x76).
pub open spec fn ld_r_r(s: CpuView, op: u8) -> CpuView {
    let (t, v) = operand(s, op & 7);
    operand_set(t, (op >> 3u8) & 7, v)
}

pub open spec fn with_alu(s: CpuView, kind: u8, v: u8) -> CpuView {
    let (a, f) = alu(kind, s.regs.a, s.regs.f, v);
    with_regs(s, Registers { a, f, ..s.regs })
}

/// ALU A,r (0x80-0xBF).
pub open spec fn alu_r(s: CpuView, op: u8) -> CpuView {
    let (t, v) = operand(s, op & 7);
    with_alu(t, (op >> 3u8) & 7, v)
}

/// ALU A,d8.
pub open spec fn alu_n(s: CpuView, op: u8) -> CpuView {
    let (t, v) = fetched(s);
    with_alu(t, (op >> 3u8) & 7, v)
}

/// RET: pop PC, then an internal cycle.
pub open spec fn ret(s: CpuView) -> CpuView {
    let (t, pc) = popped(s);
    with_pc(idle(t), pc)
}

/// RET cc: the condition check costs an internal cycle.
pub open spec fn ret_cc(s: CpuView, op: u8) -> CpuView {
    let t = idle(s);
    if condition(t.regs.f, op) { ret(t) } else { t }
}

/// POP rr (0=BC 1=DE 2=HL 3=AF, whose F low nibble reads as zero).
pub open spec fn pop(s: CpuView, op: u8) -> CpuView {
    let (t, v) = popped(s);
    let i = (op >> 4u8) & 3;
    if i == 3 {
        with_regs(t, Registers { a: hi_byte(v), f: lo_byte(v) & 0xF0, ..t.regs })
    } else {
        with_regs(t, with_reg16(t.regs, i, v))
    }
}

pub open spec fn push(s: CpuView, op: u8) -> CpuView {
    let i = (op >> 4u8) & 3;
    pushed(s, if i == 3 { pair(s.regs.a, s.regs.f) } else { reg16(s.regs, i) })
}

/// JP nn: a taken jump costs an internal cycle.
pub open spec fn jp(s: CpuView, take: bool) -> CpuView {
    let (t, nn) = fetched16(s);
    if take { with_pc(idle(t), nn) } else { t }
}

/// CALL nn: a taken call pushes the return address.
pub open spec fn call(s: CpuView, take: bool) -> CpuView {
    let (t, nn) = fetched16(s);
    if take { with_pc(pushed(t, t.regs.pc), nn) } else { t }
}

/// RST: call the vector `op & 0x38`.
pub open spec fn rst(s: CpuView, op: u8) -> CpuView {
    with_pc(pushed(s, s.regs.pc), (op & 0x38) as u16)
}

/// LDH (n),A / LDH A,(n) / LD (C),A / LD A,(C) / LD (nn),A / LD A,(nn).
pub open spec fn ld_high(s: CpuView, op: u8) -> CpuView {
    if op == 0xE0 {
        let (t, n) = fetched(s);
        store(t, (0xFF00 + n) as u16, t.regs.a)
    } else if op == 0xF0 {
        let (t, n) = fetched(s);
        let (t2, v) = load(t, (0xFF00 + n) as u16);
        with_regs(t2, Registers { a: v, ..t2.regs })
    } else if op == 0xE2 {
        store(s, (0xFF00 + s.regs.c) as u16, s.regs.a)
    } else if op == 0xF2 {
        let (t, v) = load(s, (0xFF00 + s.regs.c) as u16);
        with_regs(t, Registers { a: v, ..t.regs })
    } else if op == 0xEA {
        let (t, nn) = fetched16(s);
        store(t, nn, t.regs.a)
    } else {
        let (t, nn) = fetched16(s);
        let (t2, v) = load(t, nn);
        with_regs(t2, Registers { a: v, ..t2.regs })
    }
}

/// Flags of SP + e: H and C come from the low nibble and the low byte.
pub open spec fn sp_offset_flags(sp: u16, e: u16) -> u8 {
    flags(false, false, (sp & 0x0F) + (e & 0x0F) > 0x0F, (sp & 0xFF) + (e & 0xFF) > 0xFF)
}

/// ADD SP,e (two internal cycles) / LD HL,SP+e (one).
pub open spec fn sp_offset(s: CpuView, op: u8) -> CpuView {
    let (t, e8) = fetched(s);
    let e = sext(e8);
    if op == 0xE8 {
        let t2 = idle(idle(t));
        let sp = t2.regs.sp;
        with_regs(t2, Registers { f: sp_offset_flags(sp, e), sp: add16(sp, e), ..t2.regs })
    } else {
        let t2 = idle(t);
        let sp = t2.regs.sp;
        with_regs(t2, with_reg16(Registers { f: sp_offset_flags(sp, e), ..t2.regs }, 2, add16(sp, e)))
    }
}

pub open spec fn bit_mask(n: u8) -> u8 {
    (1u8 << n) as u8
}

/// A CB-prefixed instruction: rotate/shift, BIT, RES or SET on operand `op & 7`.
pub open spec fn cb_op(s: CpuView, op: u8) -> CpuView {
    let i = op & 7;
    let n = (op >> 3u8) & 7;
    let (t, v) = operand(s, i);
    let group = op >> 6u8;
    if group == 0 {
        let (r, c) = rotate(n, v, flag_c(t.regs.f));
        operand_set(with_f(t, flags(r == 0, false, false, c)), i, r)
    } else if group == 1 {
        with_f(t, flags(v & bit_mask(n) == 0, false, true, flag_c(t.regs.f)))
    } else if group == 2 {
        operand_set(t, i, v & !bit_mask(n))
    } else {
        operand_set(t, i, v | bit_mask(n))
    }
}

/// Opcodes with no instruction: real hardware locks up.
pub open spec fn invalid_opcode(op: u8) -> bool {
    op == 0xD3 || op == 0xDB || op == 0xDD || op == 0xE3 || op == 0xE4 || op == 0xEB || op
        == 0xEC || op == 0xED || op == 0xF4 || op == 0xFC || op == 0xFD
}

/// Opcodes 0xC0-0xFF.
#[verifier::spinoff_prover]
pub open spec fn exec_block3(s: CpuView, op: u8) -> CpuView {
    if op == 0xC0 || op == 0xC8 || op == 0xD0 || op == 0xD8 {
        ret_cc(s, op)
    } else if op == 0xC1 || op == 0xD1 || op == 0xE1 || op == 0xF1 {
        pop(s, op)
    } else if op == 0xC2 || op == 0xCA || op == 0xD2 || op == 0xDA {
        jp(s, condition(s.regs.f, op))
    } else if op == 0xC3 {
        jp(s, true)
    } else if op == 0xC4 || op == 0xCC || op == 0xD4 || op == 0xDC {
        call(s, condition(s.regs.f, op))
    } else if op == 0xC5 || op == 0xD5 || op == 0xE5 || op == 0xF5 {
        push(s, op)
    } else if op & 7 == 6 {
        alu_n(s, op)
    } else if op & 7 == 7 {
        rst(s, op)
    } else if op == 0xC9 {
        ret(s)
    } else if op == 0xCB {
        let (t, op2) = fetched(s);
        cb_op(t, op2)
    } else if op == 0xCD {
        call(s, true)
    } else if op == 0xD9 {
        // RETI: like RET, but IME is restored immediately
        CpuView { ime: true, ..ret(s) }
    } else if op == 0xE0 || op == 0xF0 || op == 0xE2 || op == 0xF2 || op == 0xEA || op == 0xFA {
        ld_high(s, op)
    } else if op == 0xE8 || op == 0xF8 {
        sp_offset(s, op)
    } else if op == 0xE9 {
        with_pc(s, reg_hl(s.regs))
    } else if op == 0xF3 {
        CpuView { ime: false, ime_pending: false, ..s }
    } else if op == 0xF9 {
        let t = idle(s);
        with_regs(t, Registers { sp: reg_hl(t.regs), ..t.regs })
    } else if op == 0xFB {
        // EI takes effect after the following instruction
        CpuView { ime_pending: true, ..s }
    } else {
        s
    }
}

/// The effect of executing opcode `op` (already fetched).
#[verifier::opaque]
pub open spec fn executed(s: CpuView, op: u8) -> CpuView {
    if op < 0x40 {
        exec_block0(s, op)
    } else if op < 0x80 {
        if op == 0x76 { halt(s) } else { ld_r_r(s, op) }
    } else if op < 0xC0 {
        alu_r(s, op)
    } else {
        exec_block3(s, op)
    }
}

/// Index of the interrupt serviced: the lowest pending bit (VBlank first);
/// 8 when nothing is pending any more (the push itself can clear IE).
pub open spec fn lowest_pending(p: u8) -> u16 {
    if p & 0x01 != 0 {
        0
    } else if p & 0x02 != 0 {
        1
    } else if p & 0x04 != 0 {
        2
    } else if p & 0x08 != 0 {
        3
    } else if p & 0x10 != 0 {
        4
    } else {
        8
    }
}

/// The IF bit of interrupt `n` (none for 8).
pub open spec fn request_bit(n: u16) -> u8 {
    if n == 0 {
        0x01
    } else if n == 1 {
        0x02
    } else if n == 2 {
        0x04
    } else if n == 3 {
        0x08
    } else if n == 4 {
        0x10
    } else {
        0
    }
}

/// Interrupt dispatch: five M-cycles, IME cleared, the request acknowledged
/// and PC pushed, then a jump to the vector 0x40 + 8n.
pub open spec fn serviced(s: CpuView) -> CpuView {
    let t0 = idle(idle(CpuView { ime: false, ..s }));
    let t1 = pushed(t0, t0.regs.pc);
    let n = lowest_pending(pending(t1.bus));
    let t2 = CpuView { bus: BusView { intf: t1.bus.intf & !request_bit(n), ..t1.bus }, ..t1 };
    with_pc(t2, (0x0040 + n * 8) as u16)
}

/// One step: a halted CPU idles for a cycle until an interrupt is pending; an
/// enabled pending interrupt is serviced; otherwise a delayed EI takes effect
/// and one instruction is fetched and executed. The second component is the
/// opcode when it is not an instruction (nothing is executed then).
pub open spec fn stepped(s: CpuView) -> (CpuView, Option<u8>) {
    if s.halted && pending(s.bus) == 0 {
        (idle(s), None)
    } else {
        let s1 = CpuView { halted: false, ..s };
        if s1.ime && pending(s1.bus) != 0 {
            (serviced(s1), None)
        } else {
            let s2 = if s1.ime_pending { CpuView { ime_pending: false, ime: true, ..s1 } } else { s1 };
            let (s3, op) = fetched(s2);
            if invalid_opcode(op) { (s3, Some(op)) } else { (executed(s3, op), None) }
        }
    }
}

// ------------------------------------------------------------------ the CPU

/// Why a step could not complete.
#[derive(Clone, Copy, PartialEq, Eq, Debug, Structural)]
pub enum CpuError {
    /// An opcode with no instruction; real hardware locks up here.
    InvalidOpcode { op: u8, addr: u16 },
}

pub struct Cpu {
    pub regs: Registers,
    pub bus: Bus,
    pub ime: bool,
    pub ime_pending: bool,
    pub halted: bool,
    pub halt_bug: bool,
}

impl View for Cpu {
    type V = CpuView;

    open spec fn view(&self) -> CpuView {
        CpuView {
            regs: self.regs,
            bus: self.bus@,
            ime: self.ime,
            ime_pending: self.ime_pending,
            halted: self.halted,
            halt_bug: self.halt_bug,
        }
    }
}

#[verifier::spinoff_prover]
fn pack_flags(z: bool, n: bool, h: bool, c: bool) -> (f: u8)
    ensures
        f == flags(z, n, h, c),
{
    (if z { 0x80u8 } else { 0 }) + (if n { 0x40u8 } else { 0 }) + (if h { 0x20u8 } else { 0 }) + (
    if c {
        0x10u8
    } else {
        0
    })
}

/// Sign-extends an 8-bit offset.
#[verifier::spinoff_prover]
fn extend(e: u8) -> (r: u16)
    ensures
        r == sext(e),
{
    if e < 0x80 {
        e as u16
    } else {
        e as u16 + 0xFF00
    }
}

impl Cpu {
    /// A CPU in the post-boot state on `bus`.
    #[verifier::spinoff_prover]
    pub fn new(bus: Bus) -> (c: Self)
        requires
            bus_wf(bus@),
        ensures
            cpu_wf(c@),
            c@.bus == bus@,
            c@.regs == post_boot_regs(),
            !c@.ime && !c@.ime_pending && !c@.halted && !c@.halt_bug,
    {
        Cpu {
            regs: Registers::new_post_boot(),
            bus,
            ime: false,
            ime_pending: false,
            halted: false,
            halt_bug: false,
        }
    }

    /// An internal M-cycle.
    #[verifier::spinoff_prover]
    fn tick(&mut self)
        requires
            cpu_wf(old(self)@),
        ensures
            cpu_wf(final(self)@),
            final(self)@ == idle(old(self)@),
    {
        self.bus.tick();
    }

    /// Every CPU memory access costs exactly one M-cycle: this pair of
    /// methods is the timing model.
    #[verifier::spinoff_prover]
    pub fn read8(&mut self, addr: u16) -> (v: u8)
        requires
            cpu_wf(old(self)@),
        ensures
            cpu_wf(final(self)@),
            (final(self)@, v) == load(old(self)@, addr),
    {
        self.bus.tick();
        self.bus.read(addr)
    }

    #[verifier::spinoff_prover]
    pub fn write8(&mut self, addr: u16, value: u8)
        requires
            cpu_wf(old(self)@),
        ensures
            cpu_wf(final(self)@),
            final(self)@ == store(old(self)@, addr, value),
    {
        self.bus.tick();
        self.bus.write(addr, value);
    }

    #[verifier::spinoff_prover]
    fn fetch(&mut self) -> (v: u8)
        requires
            cpu_wf(old(self)@),
        ensures
            cpu_wf(final(self)@),
            (final(self)@, v) == fetched(old(self)@),
    {
        let v = self.read8(self.regs.pc);
        if self.halt_bug {
            self.halt_bug = false;  // PC fails to advance once: the next fetch repeats this byte
        } else {
            self.regs.pc = self.regs.pc.wrapping_add(1);
        }
        v
    }

    #[verifier::spinoff_prover]
    fn fetch16(&mut self) -> (v: u16)
        requires
            cpu_wf(old(self)@),
        ensures
            cpu_wf(final(self)@),
            (final(self)@, v) == fetched16(old(self)@),
    {
        let lo = self.fetch();
        let hi = self.fetch();
        join(hi, lo)
    }

    #[verifier::spinoff_prover]
    fn push16(&mut self, value: u16)
        requires
            cpu_wf(old(self)@),
        ensures
            cpu_wf(final(self)@),
            final(self)@ == pushed(old(self)@, value),
    {
        self.bus.tick();  // internal cycle before the writes
        self.regs.sp = self.regs.sp.wrapping_sub(1);
        self.write8(self.regs.sp, high(value));
        self.regs.sp = self.regs.sp.wrapping_sub(1);
        self.write8(self.regs.sp, low(value));
    }

    #[verifier::spinoff_prover]
    fn pop16(&mut self) -> (v: u16)
        requires
            cpu_wf(old(self)@),
        ensures
            cpu_wf(final(self)@),
            (final(self)@, v) == popped(old(self)@),
    {
        let lo = self.read8(self.regs.sp);
        self.regs.sp = self.regs.sp.wrapping_add(1);
        let hi = self.read8(self.regs.sp);
        self.regs.sp = self.regs.sp.wrapping_add(1);
        join(hi, lo)
    }

    #[verifier::spinoff_prover]
    fn get_r(&mut self, i: u8) -> (v: u8)
        requires
            cpu_wf(old(self)@),
        ensures
            cpu_wf(final(self)@),
            (final(self)@, v) == operand(old(self)@, i),
    {
        if i == 0 {
            self.regs.b
        } else if i == 1 {
            self.regs.c
        } else if i == 2 {
            self.regs.d
        } else if i == 3 {
            self.regs.e
        } else if i == 4 {
            self.regs.h
        } else if i == 5 {
            self.regs.l
        } else if i == 6 {
            let hl = self.regs.hl();
            self.read8(hl)
        } else {
            self.regs.a
        }
    }

    #[verifier::spinoff_prover]
    fn set_r(&mut self, i: u8, v: u8)
        requires
            cpu_wf(old(self)@),
        ensures
            cpu_wf(final(self)@),
            final(self)@ == operand_set(old(self)@, i, v),
    {
        if i == 0 {
            self.regs.b = v;
        } else if i == 1 {
            self.regs.c = v;
        } else if i == 2 {
            self.regs.d = v;
        } else if i == 3 {
            self.regs.e = v;
        } else if i == 4 {
            self.regs.h = v;
        } else if i == 5 {
            self.regs.l = v;
        } else if i == 6 {
            let hl = self.regs.hl();
            self.write8(hl, v);
        } else {
            self.regs.a = v;
        }
    }

    /// rr decode for 0x01/0x11/0x21/0x31 etc.: 0=BC 1=DE 2=HL 3=SP.
    #[verifier::spinoff_prover]
    fn get_rr(&self, i: u8) -> (v: u16)
        ensures
            v == reg16(self.regs, i),
    {
        if i == 0 {
            self.regs.bc()
        } else if i == 1 {
            self.regs.de()
        } else if i == 2 {
            self.regs.hl()
        } else {
            self.regs.sp
        }
    }

    #[verifier::spinoff_prover]
    fn set_rr(&mut self, i: u8, v: u16)
        ensures
            final(self)@ == with_regs(old(self)@, with_reg16(old(self)@.regs, i, v)),
    {
        if i == 0 {
            self.regs.set_bc(v);
        } else if i == 1 {
            self.regs.set_de(v);
        } else if i == 2 {
            self.regs.set_hl(v);
        } else {
            self.regs.sp = v;
        }
    }

    /// ALU op decode for 0x80-0xBF and the d8 variants: index = (op >> 3) & 7.
    #[verifier::spinoff_prover]
    fn alu(&mut self, kind: u8, v: u8)
        requires
            kind <= 7,
        ensures
            final(self)@ == with_alu(old(self)@, kind, v),
    {
        proof { lemma_nibbles(self.regs.a, v); }
        if kind == 0 {
            self.add_a(v, false);
        } else if kind == 1 {
            self.add_a(v, true);
        } else if kind == 2 {
            self.sub_a(v, false, true);
        } else if kind == 3 {
            self.sub_a(v, true, true);
        } else if kind == 4 {
            let r = self.regs.a & v;
            self.regs.a = r;
            self.regs.f = pack_flags(r == 0, false, true, false);
        } else if kind == 5 {
            let r = self.regs.a ^ v;
            self.regs.a = r;
            self.regs.f = pack_flags(r == 0, false, false, false);
        } else if kind == 6 {
            let r = self.regs.a | v;
            self.regs.a = r;
            self.regs.f = pack_flags(r == 0, false, false, false);
        } else {
            self.sub_a(v, false, false);  // CP
        }
    }

    #[verifier::spinoff_prover]
    fn add_a(&mut self, v: u8, with_carry: bool)
        ensures
            final(self)@ == with_alu(old(self)@, if with_carry { 1 } else { 0 }, v),
    {
        proof { lemma_nibbles(self.regs.a, v); }
        let c: u8 = if with_carry && self.regs.flag(C) { 1 } else { 0 };
        let a = self.regs.a;
        let result = a.wrapping_add(v).wrapping_add(c);
        self.regs.f = pack_flags(
            result == 0,
            false,
            (a & 0x0F) + (v & 0x0F) + c > 0x0F,
            a as u16 + v as u16 + c as u16 > 0xFF,
        );
        self.regs.a = result;
    }

    #[verifier::spinoff_prover]
    fn sub_a(&mut self, v: u8, with_carry: bool, store: bool)
        requires
            with_carry ==> store,
        ensures
            final(self)@ == with_alu(
                old(self)@,
                if !store { 7 } else if with_carry { 3 } else { 2 },
                v,
            ),
    {
        proof { lemma_nibbles(self.regs.a, v); }
        let c: u8 = if with_carry && self.regs.flag(C) { 1 } else { 0 };
        let a = self.regs.a;
        let result = a.wrapping_sub(v).wrapping_sub(c);
        self.regs.f = pack_flags(
            result == 0,
            true,
            (a & 0x0F) < (v & 0x0F) + c,
            (a as u16) < v as u16 + c as u16,
        );
        if store {
            self.regs.a = result;
        }
    }

    /// Shared by the CB rotates and the A-register variants (which clear Z).
    #[verifier::spinoff_prover]
    fn rotate(&mut self, kind: u8, v: u8) -> (r: u8)
        ensures
            r == rotate(kind, v, flag_c(old(self)@.regs.f)).0,
            final(self)@ == with_f(
                old(self)@,
                flags(r == 0, false, false, rotate(kind, v, flag_c(old(self)@.regs.f)).1),
            ),
    {
        let carry_in: u8 = if self.regs.flag(C) { 1 } else { 0 };
        let (result, carry_out) = if kind == 0 {
            ((v << 1) | (v >> 7), v & 0x80 != 0)  // RLC
        } else if kind == 1 {
            ((v >> 1) | (v << 7), v & 0x01 != 0)  // RRC
        } else if kind == 2 {
            ((v << 1) | carry_in, v & 0x80 != 0)  // RL
        } else if kind == 3 {
            ((v >> 1) | (carry_in << 7), v & 0x01 != 0)  // RR
        } else if kind == 4 {
            (v << 1, v & 0x80 != 0)  // SLA
        } else if kind == 5 {
            ((v >> 1) | (v & 0x80), v & 0x01 != 0)  // SRA (sign extends)
        } else if kind == 6 {
            ((v << 4) | (v >> 4), false)  // SWAP
        } else {
            (v >> 1, v & 0x01 != 0)  // SRL
        };
        self.regs.f = pack_flags(result == 0, false, false, carry_out);
        result
    }

    #[verifier::spinoff_prover]
    fn condition(&self, op: u8) -> (r: bool)
        ensures
            r == condition(self.regs.f, op),
    {
        let cc = (op >> 3) & 3;
        if cc == 0 {
            !self.regs.flag(Z)
        } else if cc == 1 {
            self.regs.flag(Z)
        } else if cc == 2 {
            !self.regs.flag(C)
        } else {
            self.regs.flag(C)
        }
    }

    #[verifier::spinoff_prover]
    fn jr(&mut self, take: bool)
        requires
            cpu_wf(old(self)@),
        ensures
            cpu_wf(final(self)@),
            final(self)@ == jr(old(self)@, take),
    {
        let e = self.fetch();
        if take {
            self.bus.tick();
            self.regs.pc = self.regs.pc.wrapping_add(extend(e));
        }
    }

    #[verifier::spinoff_prover]
    fn jp(&mut self, take: bool)
        requires
            cpu_wf(old(self)@),
        ensures
            cpu_wf(final(self)@),
            final(self)@ == jp(old(self)@, take),
    {
        let nn = self.fetch16();
        if take {
            self.bus.tick();
            self.regs.pc = nn;
        }
    }

    #[verifier::spinoff_prover]
    fn call(&mut self, take: bool)
        requires
            cpu_wf(old(self)@),
        ensures
            cpu_wf(final(self)@),
            final(self)@ == call(old(self)@, take),
    {
        let nn = self.fetch16();
        if take {
            self.push16(self.regs.pc);  // internal tick + 2 writes
            self.regs.pc = nn;
        }
    }

    #[verifier::spinoff_prover]
    fn daa_op(&mut self)
        ensures
            final(self)@ == daa_op(old(self)@),
    {
        let mut a = self.regs.a;
        let mut carry = self.regs.flag(C);
        let n = self.regs.flag(N);
        let h = self.regs.flag(H);
        if !n {
            let mut adjust: u8 = 0;
            if h || a & 0x0F > 0x09 {
                adjust = adjust + 0x06;
            }
            if carry || a > 0x99 {
                adjust = adjust + 0x60;
                carry = true;
            }
            a = a.wrapping_add(adjust);
        } else {
            let mut adjust: u8 = 0;
            if h {
                adjust = adjust + 0x06;
            }
            if carry {
                adjust = adjust + 0x60;
            }
            a = a.wrapping_sub(adjust);
        }
        self.regs.a = a;
        self.regs.f = pack_flags(a == 0, n, false, carry);
    }

    /// CPL / SCF / CCF.
    #[verifier::spinoff_prover]
    fn flag_op(&mut self, op: u8)
        ensures
            final(self)@ == flag_op(old(self)@, op),
    {
        let z = self.regs.flag(Z);
        let c = self.regs.flag(C);
        if op == 0x2F {
            self.regs.a = 255 - self.regs.a;
            self.regs.f = pack_flags(z, true, true, c);
        } else if op == 0x37 {
            self.regs.f = pack_flags(z, false, false, true);
        } else {
            self.regs.f = pack_flags(z, false, false, !c);
        }
    }

    /// LD (BC),A / LD (DE),A / LD (HL+),A / LD (HL-),A.
    #[verifier::spinoff_prover]
    fn ld_ind_a(&mut self, op: u8)
        requires
            cpu_wf(old(self)@),
        ensures
            cpu_wf(final(self)@),
            final(self)@ == ld_ind_a(old(self)@, op),
    {
        let addr = self.indirect_addr(op);
        let v = self.regs.a;
        self.write8(addr, v);
        self.step_hl(op);
    }

    /// LD A,(BC) / LD A,(DE) / LD A,(HL+) / LD A,(HL-).
    #[verifier::spinoff_prover]
    fn ld_a_ind(&mut self, op: u8)
        requires
            cpu_wf(old(self)@),
        ensures
            cpu_wf(final(self)@),
            final(self)@ == ld_a_ind(old(self)@, op),
    {
        let addr = self.indirect_addr(op);
        self.regs.a = self.read8(addr);
        self.step_hl(op);
    }

    #[verifier::spinoff_prover]
    fn indirect_addr(&self, op: u8) -> (a: u16)
        ensures
            a == indirect_addr(self.regs, op),
    {
        if op & 0xF0 == 0x00 {
            self.regs.bc()
        } else if op & 0xF0 == 0x10 {
            self.regs.de()
        } else {
            self.regs.hl()
        }
    }

    #[verifier::spinoff_prover]
    fn step_hl(&mut self, op: u8)
        ensures
            final(self)@ == with_regs(old(self)@, hl_stepped(old(self)@.regs, op)),
    {
        if op & 0xF0 == 0x20 {
            let hl = self.regs.hl();
            self.regs.set_hl(hl.wrapping_add(1));
        } else if op & 0xF0 == 0x30 {
            let hl = self.regs.hl();
            self.regs.set_hl(hl.wrapping_sub(1));
        }
    }

    #[verifier::spinoff_prover]
    fn inc_dec_rr(&mut self, op: u8)
        requires
            cpu_wf(old(self)@),
        ensures
            cpu_wf(final(self)@),
            final(self)@ == inc_dec_rr(old(self)@, op),
    {
        self.bus.tick();
        let i = (op >> 4) & 3;
        let v = self.get_rr(i);
        if op & 0x08 == 0 {
            self.set_rr(i, v.wrapping_add(1));
        } else {
            self.set_rr(i, v.wrapping_sub(1));
        }
    }

    /// INC r / DEC r (C flag untouched).
    #[verifier::spinoff_prover]
    fn inc_dec_r(&mut self, op: u8)
        requires
            cpu_wf(old(self)@),
        ensures
            cpu_wf(final(self)@),
            final(self)@ == inc_dec_r(old(self)@, op),
    {
        let i = (op >> 3) & 7;
        let dec = op & 1 == 1;
        let v0 = self.get_r(i);
        let v = if dec { v0.wrapping_sub(1) } else { v0.wrapping_add(1) };
        self.set_r(i, v);
        let c = self.regs.flag(C);
        let h = if dec { v & 0x0F == 0x0F } else { v & 0x0F == 0 };
        self.regs.f = pack_flags(v == 0, dec, h, c);
    }

    /// LD (nn),SP.
    #[verifier::spinoff_prover]
    fn ld_nn_sp(&mut self)
        requires
            cpu_wf(old(self)@),
        ensures
            cpu_wf(final(self)@),
            final(self)@ == ld_nn_sp(old(self)@),
    {
        let nn = self.fetch16();
        let sp = self.regs.sp;
        self.write8(nn, low(sp));
        self.write8(nn.wrapping_add(1), high(sp));
    }

    /// ADD HL,rr.
    #[verifier::spinoff_prover]
    fn add_hl_rr(&mut self, op: u8)
        requires
            cpu_wf(old(self)@),
        ensures
            cpu_wf(final(self)@),
            final(self)@ == add_hl_rr(old(self)@, op),
    {
        self.bus.tick();
        let hl = self.regs.hl();
        let v = self.get_rr((op >> 4) & 3);
        proof { lemma_u16_bits(hl); lemma_u16_bits(v); }
        let z = self.regs.flag(Z);
        self.regs.f = pack_flags(z, false, (hl & 0x0FFF) + (v & 0x0FFF) > 0x0FFF, hl as u32 + v as u32 > 0xFFFF);
        self.regs.set_hl(hl.wrapping_add(v));
    }

    /// Opcodes 0x00-0x3F.
    #[verifier::rlimit(40)]
    #[verifier::spinoff_prover]
    fn exec_block0(&mut self, op: u8)
        requires
            cpu_wf(old(self)@),
            op < 0x40,
        ensures
            cpu_wf(final(self)@),
            final(self)@ == exec_block0(old(self)@, op),
    {
        if op == 0x00 {
        } else if op & 0x0F == 0x01 {
            let v = self.fetch16();
            self.set_rr((op >> 4) & 3, v);
        } else if op == 0x02 || op == 0x12 || op == 0x22 || op == 0x32 {
            self.ld_ind_a(op);
        } else if op & 0x0F == 0x03 || op & 0x0F == 0x0B {
            self.inc_dec_rr(op);
        } else if op & 7 == 4 || op & 7 == 5 {
            self.inc_dec_r(op);
        } else if op & 7 == 6 {
            let v = self.fetch();
            self.set_r((op >> 3) & 7, v);
        } else if op == 0x07 || op == 0x0F || op == 0x17 || op == 0x1F {
            let a = self.regs.a;
            let r = self.rotate((op >> 3) & 3, a);
            self.regs.a = r;
            self.regs.f = self.regs.f & 0x10;  // Z is always cleared
            proof {
                let rr = r == 0;
                let cc = rotate((op >> 3u8) & 3, a, flag_c(old(self)@.regs.f)).1;
                assert(flags(rr, false, false, cc) & 0x10 == flags(false, false, false, cc)) by (bit_vector);
            }
        } else if op == 0x08 {
            self.ld_nn_sp();
        } else if op & 0x0F == 0x09 {
            self.add_hl_rr(op);
        } else if op == 0x0A || op == 0x1A || op == 0x2A || op == 0x3A {
            self.ld_a_ind(op);
        } else if op == 0x10 {
            // STOP consumes its padding byte
            self.fetch();
        } else if op == 0x18 {
            self.jr(true);
        } else if op == 0x20 || op == 0x28 || op == 0x30 || op == 0x38 {
            let take = self.condition(op);
            self.jr(take);
        } else if op == 0x27 {
            self.daa_op();
        } else {
            self.flag_op(op);
        }
    }

    #[verifier::spinoff_prover]
    fn ret(&mut self)
        requires
            cpu_wf(old(self)@),
        ensures
            cpu_wf(final(self)@),
            final(self)@ == ret(old(self)@),
    {
        let pc = self.pop16();
        self.bus.tick();
        self.regs.pc = pc;
    }

    /// POP rr (0=BC 1=DE 2=HL 3=AF).
    #[verifier::spinoff_prover]
    fn pop(&mut self, op: u8)
        requires
            cpu_wf(old(self)@),
        ensures
            cpu_wf(final(self)@),
            final(self)@ == pop(old(self)@, op),
    {
        let v = self.pop16();
        let i = (op >> 4) & 3;
        if i == 3 {
            self.regs.set_af(v);  // set_af masks F's low nibble
        } else {
            self.set_rr(i, v);
        }
    }

    /// PUSH rr (0=BC 1=DE 2=HL 3=AF).
    #[verifier::spinoff_prover]
    fn push(&mut self, op: u8)
        requires
            cpu_wf(old(self)@),
        ensures
            cpu_wf(final(self)@),
            final(self)@ == push(old(self)@, op),
    {
        let i = (op >> 4) & 3;
        let v = if i == 3 { self.regs.af() } else { self.get_rr(i) };
        self.push16(v);
    }

    /// LDH and the absolute loads and stores of A.
    #[verifier::spinoff_prover]
    fn ld_high(&mut self, op: u8)
        requires
            cpu_wf(old(self)@),
        ensures
            cpu_wf(final(self)@),
            final(self)@ == ld_high(old(self)@, op),
    {
        if op == 0xE0 {
            let n = self.fetch();
            let v = self.regs.a;
            self.write8(0xFF00 + n as u16, v);
        } else if op == 0xF0 {
            let n = self.fetch();
            self.regs.a = self.read8(0xFF00 + n as u16);
        } else if op == 0xE2 {
            let a = 0xFF00 + self.regs.c as u16;
            let v = self.regs.a;
            self.write8(a, v);
        } else if op == 0xF2 {
            let a = 0xFF00 + self.regs.c as u16;
            self.regs.a = self.read8(a);
        } else if op == 0xEA {
            let nn = self.fetch16();
            let v = self.regs.a;
            self.write8(nn, v);
        } else {
            let nn = self.fetch16();
            self.regs.a = self.read8(nn);
        }
    }

    /// ADD SP,e / LD HL,SP+e.
    #[verifier::spinoff_prover]
    fn sp_offset(&mut self, op: u8)
        requires
            cpu_wf(old(self)@),
        ensures
            cpu_wf(final(self)@),
            final(self)@ == sp_offset(old(self)@, op),
    {
        let e = extend(self.fetch());
        self.bus.tick();
        if op == 0xE8 {
            self.bus.tick();
        }
        let sp = self.regs.sp;
        proof { lemma_u16_bits(sp); lemma_u16_bits(e); }
        self.regs.f = pack_flags(false, false, (sp & 0x0F) + (e & 0x0F) > 0x0F, (sp & 0xFF) + (e & 0xFF) > 0xFF);
        if op == 0xE8 {
            self.regs.sp = sp.wrapping_add(e);
        } else {
            self.regs.set_hl(sp.wrapping_add(e));
        }
    }

    /// A CB-prefixed instruction.
    #[verifier::spinoff_prover]
    fn execute_cb(&mut self)
        requires
            cpu_wf(old(self)@),
        ensures
            cpu_wf(final(self)@),
            final(self)@ == ({
                let (t, op2) = fetched(old(self)@);
                cb_op(t, op2)
            }),
    {
        let op = self.fetch();
        let i = op & 7;
        let n = (op >> 3) & 7;  // rotate kind, or bit number
        proof { lemma_u8_bits(op); }
        let group = op >> 6;
        let v = self.get_r(i);
        if group == 0 {
            let r = self.rotate(n, v);
            self.set_r(i, r);
        } else if group == 1 {
            // BIT n,r: read-only, C preserved
            let c = self.regs.flag(C);
            self.regs.f = pack_flags(v & (1u8 << n) == 0, false, true, c);
        } else if group == 2 {
            // RES n,r
            self.set_r(i, v & !(1u8 << n));
        } else {
            // SET n,r
            self.set_r(i, v | (1u8 << n));
        }
    }

    /// Opcodes 0xC0-0xFF.
    #[verifier::rlimit(60)]
    #[verifier::spinoff_prover]
    fn exec_block3(&mut self, op: u8)
        requires
            cpu_wf(old(self)@),
            op >= 0xC0,
            !invalid_opcode(op),
        ensures
            cpu_wf(final(self)@),
            final(self)@ == exec_block3(old(self)@, op),
    {
        if op == 0xC0 || op == 0xC8 || op == 0xD0 || op == 0xD8 {
            self.bus.tick();  // the condition check costs an internal cycle
            if self.condition(op) {
                self.ret();
            }
        } else if op == 0xC1 || op == 0xD1 || op == 0xE1 || op == 0xF1 {
            self.pop(op);
        } else if op == 0xC2 || op == 0xCA || op == 0xD2 || op == 0xDA {
            let take = self.condition(op);
            self.jp(take);
        } else if op == 0xC3 {
            self.jp(true);
        } else if op == 0xC4 || op == 0xCC || op == 0xD4 || op == 0xDC {
            let take = self.condition(op);
            self.call(take);
        } else if op == 0xC5 || op == 0xD5 || op == 0xE5 || op == 0xF5 {
            self.push(op);
        } else if op & 7 == 6 {
            proof { lemma_u8_bits(op); }
            let v = self.fetch();
            self.alu((op >> 3) & 7, v);
        } else if op & 7 == 7 {
            // RST: vector = op & 0x38
            self.push16(self.regs.pc);
            self.regs.pc = (op & 0x38) as u16;
        } else if op == 0xC9 {
            self.ret();
        } else if op == 0xCB {
            self.execute_cb();
        } else if op == 0xCD {
            self.call(true);
        } else if op == 0xD9 {
            // RETI: like RET, but IME is restored immediately
            self.ret();
            self.ime = true;
        } else if op == 0xE0 || op == 0xF0 || op == 0xE2 || op == 0xF2 || op == 0xEA || op == 0xFA {
            self.ld_high(op);
        } else if op == 0xE8 || op == 0xF8 {
            self.sp_offset(op);
        } else if op == 0xE9 {
            self.regs.pc = self.regs.hl();
        } else if op == 0xF3 {
            // DI
            self.ime = false;
            self.ime_pending = false;
        } else if op == 0xF9 {
            self.bus.tick();
            self.regs.sp = self.regs.hl();
        } else if op == 0xFB {
            // EI, delayed one instruction
            self.ime_pending = true;
        }
    }

    /// Executes an already fetched opcode.
    #[verifier::spinoff_prover]
    fn execute(&mut self, op: u8)
        requires
            cpu_wf(old(self)@),
            !invalid_opcode(op),
        ensures
            cpu_wf(final(self)@),
            final(self)@ == executed(old(self)@, op),
    {
        proof { reveal(executed); }
        if op < 0x40 {
            self.exec_block0(op);
        } else if op < 0x80 {
            if op == 0x76 {
                // HALT
                if !self.ime && (self.bus.inte & self.bus.intf & 0x1F) != 0 {
                    self.halt_bug = true;  // pending IRQ with IME off: the HALT bug
                } else {
                    self.halted = true;
                }
            } else {
                // LD r,r'
                proof { lemma_u8_bits(op); }
                let v = self.get_r(op & 7);
                self.set_r((op >> 3) & 7, v);
            }
        } else if op < 0xC0 {
            proof { lemma_u8_bits(op); }
            let v = self.get_r(op & 7);
            self.alu((op >> 3) & 7, v);
        } else {
            self.exec_block3(op);
        }
    }

    #[verifier::spinoff_prover]
    fn service_interrupt(&mut self)
        requires
            cpu_wf(old(self)@),
        ensures
            cpu_wf(final(self)@),
            final(self)@ == serviced(old(self)@),
    {
        // 5 M-cycles total: 2 internal + push (internal + 2 writes) below.
        self.ime = false;
        self.bus.tick();
        self.bus.tick();
        self.push16(self.regs.pc);
        let pending = self.bus.inte & self.bus.intf & 0x1F;
        let n = lowest_bit(pending);
        let mask = interrupt_bit(n);
        self.bus.intf = self.bus.intf & !mask;
        self.regs.pc = 0x0040 + n * 8;
    }

    /// Executes one instruction, or services one interrupt, or idles one
    /// cycle while halted. An opcode that is not an instruction is reported
    /// (with the address it was fetched from) and not executed.
    #[verifier::spinoff_prover]
    pub fn step(&mut self) -> (r: Result<(), CpuError>)
        requires
            cpu_wf(old(self)@),
        ensures
            cpu_wf(final(self)@),
            final(self)@ == stepped(old(self)@).0,
            match (r, stepped(old(self)@).1) {
                (Ok(()), None) => true,
                (Err(CpuError::InvalidOpcode { op, addr: _ }), Some(o)) => op == o,
                _ => false,
            },
    {
        if self.halted {
            if self.bus.inte & self.bus.intf & 0x1F == 0 {
                self.bus.tick();  // time passes while halted
                return Ok(());
            }
            self.halted = false;
        }
        if self.ime && (self.bus.inte & self.bus.intf & 0x1F) != 0 {
            self.service_interrupt();
            return Ok(());
        }
        // EI takes effect after the *following* instruction completes.
        if self.ime_pending {
            self.ime_pending = false;
            self.ime = true;
        }
        let addr = self.regs.pc;
        let op = self.fetch();
        if op == 0xD3 || op == 0xDB || op == 0xDD || op == 0xE3 || op == 0xE4 || op == 0xEB || op
            == 0xEC || op == 0xED || op == 0xF4 || op == 0xFC || op == 0xFD {
            return Err(CpuError::InvalidOpcode { op, addr });
        }
        self.execute(op);
        Ok(())
    }
}

#[verifier::spinoff_prover]
fn lowest_bit(p: u8) -> (n: u16)
    ensures
        n == lowest_pending(p),
{
    if p & 0x01 != 0 {
        0
    } else if p & 0x02 != 0 {
        1
    } else if p & 0x04 != 0 {
        2
    } else if p & 0x08 != 0 {
        3
    } else if p & 0x10 != 0 {
        4
    } else {
        8
    }
}

#[verifier::spinoff_prover]
fn interrupt_bit(n: u16) -> (m: u8)
    ensures
        m == request_bit(n),
{
    if n == 0 {
        0x01
    } else if n == 1 {
        0x02
    } else if n == 2 {
        0x04
    } else if n == 3 {
        0x08
    } else if n == 4 {
        0x10
    } else {
        0
    }
}

#[verifier::spinoff_prover]
proof fn lemma_nibbles(a: u8, v: u8)
    ensures
        a & 0x0F <= 0x0F,
        v & 0x0F <= 0x0F,
{
    lemma_u8_bits(a);
    lemma_u8_bits(v);
}

// ------------------------------------------------------------------ timing

/// An internal cycle is four T-cycles; reads and writes are internal cycles
/// plus an access that does not move the clock.
#[verifier::spinoff_prover]
proof fn lemma_cycle_costs(s: CpuView, addr: u16, v: u8)
    requires
        s.bus.cycles <= u64::MAX - 4,
    ensures
        idle(s).bus.cycles == s.bus.cycles + 4,
        load(s, addr).0.bus.cycles == s.bus.cycles + 4,
        store(s, addr, v).bus.cycles == s.bus.cycles + 4,
{
    lemma_ticked_cycles(s.bus);
    lemma_written_keeps_cycles(bus_ticked(s.bus), addr, v);
}

#[verifier::spinoff_prover]
proof fn lemma_fetch_costs(s: CpuView)
    requires
        s.bus.cycles <= u64::MAX - 8,
    ensures
        fetched(s).0.bus.cycles == s.bus.cycles + 4,
        fetched16(s).0.bus.cycles == s.bus.cycles + 8,
{
    lemma_cycle_costs(s, s.regs.pc, 0);
    let t = fetched(s).0;
    lemma_cycle_costs(t, t.regs.pc, 0);
}

#[verifier::spinoff_prover]
proof fn lemma_stack_costs(s: CpuView, v: u16)
    requires
        s.bus.cycles <= u64::MAX - 12,
    ensures
        pushed(s, v).bus.cycles == s.bus.cycles + 12,
        popped(s).0.bus.cycles == s.bus.cycles + 8,
{
    lemma_cycle_costs(s, 0, 0);
    let t0 = idle(s);
    let sp1 = dec16(t0.regs.sp);
    let u0 = CpuView { regs: Registers { sp: sp1, ..t0.regs }, ..t0 };
    lemma_cycle_costs(u0, sp1, hi_byte(v));
    let t1 = store(u0, sp1, hi_byte(v));
    let sp2 = dec16(sp1);
    lemma_cycle_costs(CpuView { regs: Registers { sp: sp2, ..t1.regs }, ..t1 }, sp2, lo_byte(v));
    lemma_cycle_costs(s, s.regs.sp, 0);
    let (a, lo) = load(s, s.regs.sp);
    let ab = CpuView { regs: Registers { sp: inc16(s.regs.sp), ..a.regs }, ..a };
    lemma_cycle_costs(ab, ab.regs.sp, 0);
}

#[verifier::spinoff_prover]
proof fn lemma_operand_costs(s: CpuView, i: u8, v: u8)
    requires
        s.bus.cycles <= u64::MAX - 4,
    ensures
        s.bus.cycles <= operand(s, i).0.bus.cycles <= s.bus.cycles + 4,
        s.bus.cycles <= operand_set(s, i, v).bus.cycles <= s.bus.cycles + 4,
{
    lemma_cycle_costs(s, reg_hl(s.regs), v);
}

broadcast proof fn lemma_idle_cost(s: CpuView)
    requires
        s.bus.cycles <= u64::MAX - 4,
    ensures
        #[trigger] idle(s).bus.cycles == s.bus.cycles + 4,
{
    lemma_cycle_costs(s, 0, 0);
}

broadcast proof fn lemma_load_cost(s: CpuView, addr: u16)
    requires
        s.bus.cycles <= u64::MAX - 4,
    ensures
        #[trigger] load(s, addr).0.bus.cycles == s.bus.cycles + 4,
{
    lemma_cycle_costs(s, addr, 0);
}

broadcast proof fn lemma_store_cost(s: CpuView, addr: u16, v: u8)
    requires
        s.bus.cycles <= u64::MAX - 4,
    ensures
        #[trigger] store(s, addr, v).bus.cycles == s.bus.cycles + 4,
{
    lemma_cycle_costs(s, addr, v);
}

broadcast proof fn lemma_fetched_cost(s: CpuView)
    requires
        s.bus.cycles <= u64::MAX - 8,
    ensures
        #[trigger] fetched(s).0.bus.cycles == s.bus.cycles + 4,
{
    lemma_fetch_costs(s);
}

broadcast proof fn lemma_fetched16_cost(s: CpuView)
    requires
        s.bus.cycles <= u64::MAX - 8,
    ensures
        #[trigger] fetched16(s).0.bus.cycles == s.bus.cycles + 8,
{
    lemma_fetch_costs(s);
}

broadcast proof fn lemma_pushed_cost(s: CpuView, v: u16)
    requires
        s.bus.cycles <= u64::MAX - 12,
    ensures
        #[trigger] pushed(s, v).bus.cycles == s.bus.cycles + 12,
{
    lemma_stack_costs(s, v);
}

broadcast proof fn lemma_popped_cost(s: CpuView)
    requires
        s.bus.cycles <= u64::MAX - 12,
    ensures
        #[trigger] popped(s).0.bus.cycles == s.bus.cycles + 8,
{
    lemma_stack_costs(s, 0);
}

broadcast proof fn lemma_operand_cost(s: CpuView, i: u8)
    requires
        s.bus.cycles <= u64::MAX - 4,
    ensures
        s.bus.cycles <= (#[trigger] operand(s, i)).0.bus.cycles <= s.bus.cycles + 4,
{
    lemma_operand_costs(s, i, 0);
}

broadcast proof fn lemma_operand_set_cost(s: CpuView, i: u8, v: u8)
    requires
        s.bus.cycles <= u64::MAX - 4,
    ensures
        s.bus.cycles <= (#[trigger] operand_set(s, i, v)).bus.cycles <= s.bus.cycles + 4,
{
    lemma_operand_costs(s, i, v);
}

pub broadcast group group_cycle_costs {
    lemma_idle_cost,
    lemma_load_cost,
    lemma_store_cost,
    lemma_fetched_cost,
    lemma_fetched16_cost,
    lemma_pushed_cost,
    lemma_popped_cost,
    lemma_operand_cost,
    lemma_operand_set_cost,
}

#[verifier::spinoff_prover]
proof fn lemma_block0_cost(s: CpuView, op: u8)
    requires
        s.bus.cycles <= u64::MAX - 20,
        op < 0x40,
    ensures
        s.bus.cycles <= exec_block0(s, op).bus.cycles <= s.bus.cycles + 16,
{
    broadcast use group_cycle_costs;
}

#[verifier::spinoff_prover]
proof fn lemma_cb_cost(s: CpuView, op: u8)
    requires
        s.bus.cycles <= u64::MAX - 12,
    ensures
        s.bus.cycles <= cb_op(s, op).bus.cycles <= s.bus.cycles + 8,
{
    broadcast use group_cycle_costs;
}

#[verifier::spinoff_prover]
proof fn lemma_flow_cost(s: CpuView, op: u8, take: bool)
    requires
        s.bus.cycles <= u64::MAX - 20,
    ensures
        ret(s).bus.cycles == s.bus.cycles + 12,
        s.bus.cycles <= ret_cc(s, op).bus.cycles <= s.bus.cycles + 16,
        s.bus.cycles <= jp(s, take).bus.cycles <= s.bus.cycles + 12,
        s.bus.cycles <= call(s, take).bus.cycles <= s.bus.cycles + 20,
        rst(s, op).bus.cycles == s.bus.cycles + 12,
{
    broadcast use group_cycle_costs;
    lemma_cycle_costs(s, 0, 0);
}

#[verifier::spinoff_prover]
proof fn lemma_data_cost(s: CpuView, op: u8)
    requires
        s.bus.cycles <= u64::MAX - 20,
    ensures
        s.bus.cycles <= pop(s, op).bus.cycles <= s.bus.cycles + 8,
        s.bus.cycles <= push(s, op).bus.cycles <= s.bus.cycles + 12,
        s.bus.cycles <= alu_n(s, op).bus.cycles <= s.bus.cycles + 4,
        s.bus.cycles <= ld_high(s, op).bus.cycles <= s.bus.cycles + 12,
        s.bus.cycles <= sp_offset(s, op).bus.cycles <= s.bus.cycles + 12,
{
    broadcast use group_cycle_costs;
}

#[verifier::spinoff_prover]
proof fn lemma_block3_cost(s: CpuView, op: u8)
    requires
        s.bus.cycles <= u64::MAX - 20,
        op >= 0xC0,
    ensures
        s.bus.cycles <= exec_block3(s, op).bus.cycles <= s.bus.cycles + 20,
{
    lemma_flow_cost(s, op, condition(s.regs.f, op));
    lemma_flow_cost(s, op, true);
    lemma_data_cost(s, op);
    lemma_cycle_costs(s, 0, 0);
    lemma_fetch_costs(s);
    let (t, op2) = fetched(s);
    lemma_cb_cost(t, op2);
}

#[verifier::spinoff_prover]
proof fn lemma_serviced_cost(s: CpuView)
    requires
        s.bus.cycles <= u64::MAX - 24,
    ensures
        serviced(s).bus.cycles == s.bus.cycles + 20,
{
    broadcast use group_cycle_costs;
}

#[verifier::spinoff_prover]
proof fn lemma_executed_cost(s: CpuView, op: u8)
    requires
        s.bus.cycles <= u64::MAX - 20,
    ensures
        s.bus.cycles <= executed(s, op).bus.cycles <= s.bus.cycles + 20,
{
    reveal(executed);
    broadcast use group_cycle_costs;
    if op < 0x40 {
        lemma_block0_cost(s, op);
    } else if op >= 0xC0 {
        lemma_block3_cost(s, op);
    }
}

/// Every step takes one to six M-cycles.
#[verifier::spinoff_prover]
pub proof fn lemma_step_advances(s: CpuView)
    requires
        s.bus.cycles <= u64::MAX - 24,
    ensures
        s.bus.cycles + 4 <= stepped(s).0.bus.cycles <= s.bus.cycles + 24,
{
    lemma_cycle_costs(s, 0, 0);
    let s1 = CpuView { halted: false, ..s };
    lemma_serviced_cost(s1);
    let s2 = if s1.ime_pending { CpuView { ime_pending: false, ime: true, ..s1 } } else { s1 };
    lemma_fetch_costs(s2);
    let (s3, op) = fetched(s2);
    lemma_executed_cost(s3, op);
}

} // verus!
