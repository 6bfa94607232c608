use termboy::gba::bus::Bus;
use termboy::gba::cpu::{Cpu, ExecError};
use termboy::gba::psr::{Mode, C, N, T, V, Z};

/// Cpu with ARM opcodes placed at the cartridge entry point 0x08000000.
fn cpu_with(prog: &[u32]) -> Cpu {
    let mut rom = vec![0u8; 0x4000];
    for (i, op) in prog.iter().enumerate() {
        rom[i * 4..i * 4 + 4].copy_from_slice(&op.to_le_bytes());
    }
    Cpu::new(Bus::new(rom))
}

/// Cpu started in Thumb state with Thumb opcodes at 0x08000000.
fn thumb_cpu_with(prog: &[u16]) -> Cpu {
    let mut rom = vec![0u8; 0x4000];
    for (i, op) in prog.iter().enumerate() {
        rom[i * 2..i * 2 + 2].copy_from_slice(&op.to_le_bytes());
    }
    let mut cpu = Cpu::new(Bus::new(rom));
    cpu.regs.cpsr.set_flag(T, true);
    cpu.regs.set(15, 0x0800_0000);
    cpu.flush();
    cpu
}

fn flags(cpu: &Cpu) -> (bool, bool, bool, bool) {
    let p = cpu.regs.cpsr;
    (p.flag(N), p.flag(Z), p.flag(C), p.flag(V))
}

#[test]
fn boots_at_cartridge_entry_in_system_mode() {
    let cpu = cpu_with(&[0xE1A0_0000]); // MOV r0, r0 (canonical NOP)
    assert_eq!(cpu.exec_addr(), 0x0800_0000);
    assert_eq!(cpu.regs.cpsr.mode(), Mode::System);
}

#[test]
fn all_sixteen_conditions() {
    let mut cpu = cpu_with(&[0xE1A0_0000]);
    // (cond, cpsr-flag-bits, expected)
    let cases: &[(u8, u32, bool)] = &[
        (0x0, Z, true),
        (0x0, 0, false), // EQ
        (0x1, 0, true),
        (0x1, Z, false), // NE
        (0x2, C, true),
        (0x3, C, false), // CS / CC
        (0x4, N, true),
        (0x5, N, false), // MI / PL
        (0x6, V, true),
        (0x7, V, false), // VS / VC
        (0x8, C, true),
        (0x8, C | Z, false), // HI = C && !Z
        (0x9, Z, true),
        (0x9, C, false), // LS = !C || Z
        (0xA, N | V, true),
        (0xA, N, false), // GE = N == V
        (0xB, V, true),
        (0xB, N | V, false), // LT
        (0xC, 0, true),
        (0xC, Z, false), // GT = !Z && N == V
        (0xD, Z, true),
        (0xD, 0, false), // LE
        (0xE, 0, true),              // AL
        (0xF, N | Z | C | V, false), // NV: never on ARMv4
    ];
    for &(cond, flags, expected) in cases {
        cpu.regs.cpsr.0 = (cpu.regs.cpsr.0 & 0x0FFF_FFFF) | flags;
        assert_eq!(cpu.check_cond(cond), expected, "cond {cond:#X} flags {flags:#010X}");
    }
}

#[test]
fn branch_with_offset() {
    let mut cpu = cpu_with(&[0xEA00_0001]); // B +1 -> target = here+8 + 4
    cpu.step().unwrap();
    assert_eq!(cpu.exec_addr(), 0x0800_000C);
}

#[test]
fn branch_and_link_sets_lr() {
    let mut cpu = cpu_with(&[0xEB00_0010]); // BL
    cpu.step().unwrap();
    assert_eq!(cpu.regs.get(14), 0x0800_0004);
    assert_eq!(cpu.exec_addr(), 0x0800_0048);
}

#[test]
fn backward_branch_to_self_detected_via_exec_addr() {
    let mut cpu = cpu_with(&[0xEAFF_FFFE]); // b $ (the test ROMs' idle loop)
    let before = cpu.exec_addr();
    cpu.step().unwrap();
    assert_eq!(cpu.exec_addr(), before);
}

#[test]
fn bx_switches_to_thumb_and_back() {
    let mut cpu = cpu_with(&[0xE12F_FF10]); // BX r0
    cpu.regs.set(0, 0x0800_0101); // odd -> Thumb at 0x08000100
    cpu.step().unwrap();
    assert!(cpu.regs.cpsr.thumb());
    assert_eq!(cpu.exec_addr(), 0x0800_0100);
}

#[test]
fn failed_condition_skips_and_advances() {
    let mut cpu = cpu_with(&[0x0A00_0010]); // BEQ with Z clear
    cpu.step().unwrap();
    assert_eq!(cpu.exec_addr(), 0x0800_0004);
}

#[test]
fn unsupported_instructions_are_reported() {
    let mut cpu = cpu_with(&[0xE000_0091]); // MUL r0, r1, r0
    assert_eq!(cpu.step(), Err(ExecError::Arm { op: 0xE000_0091, addr: 0x0800_0000 }));
    let mut t = thumb_cpu_with(&[0x6800]); // LDR r0, [r0] (format 9)
    assert_eq!(t.step(), Err(ExecError::Thumb { halfword: 0x6800, addr: 0x0800_0000 }));
}

#[test]
fn irq_enters_irq_mode_at_the_vector() {
    let mut cpu = cpu_with(&[0xE1A0_0000]);
    cpu.irq();
    assert_eq!(cpu.regs.cpsr.mode(), Mode::Irq);
    assert_eq!(cpu.regs.get(14), 0x0800_0004);
    assert_eq!(cpu.exec_addr(), 0x18);
    assert_eq!(cpu.regs.spsr().mode(), Mode::System);
    // IRQs are now masked: a second request is ignored
    cpu.irq();
    assert_eq!(cpu.exec_addr(), 0x18);
}

#[test]
fn pc_reads_as_plus_8_in_arm() {
    let mut cpu = cpu_with(&[0xE1A0_000F]); // MOV r0, r15
    cpu.step().unwrap();
    assert_eq!(cpu.regs.get(0), 0x0800_0008);
    assert_eq!(cpu.exec_addr(), 0x0800_0004); // advanced to the next instr
}

#[test]
fn condition_codes_gate_execution() {
    // MOVEQ r0,#1 ; MOVNE r1,#1  (Z is clear after reset)
    let mut cpu = cpu_with(&[0x03A0_0001, 0x13A0_1001]);
    cpu.step().unwrap();
    cpu.step().unwrap();
    assert_eq!(cpu.regs.get(0), 0); // EQ failed
    assert_eq!(cpu.regs.get(1), 1); // NE passed
}

#[test]
fn pc_reads_as_plus_4_in_thumb() {
    let mut cpu = thumb_cpu_with(&[0x4678]); // MOV r0, pc (hi-reg MOV)
    cpu.step().unwrap();
    assert_eq!(cpu.regs.get(0), 0x0800_0004);
}

#[test]
fn adds_sets_overflow_and_negative() {
    let mut cpu = cpu_with(&[0xE091_0002]); // ADDS r0, r1, r2
    cpu.regs.set(1, 0x7FFF_FFFF);
    cpu.regs.set(2, 1);
    cpu.step().unwrap();
    assert_eq!(cpu.regs.get(0), 0x8000_0000);
    assert_eq!(flags(&cpu), (true, false, false, true));
}

#[test]
fn subs_to_zero_sets_zero_and_no_borrow() {
    let mut cpu = cpu_with(&[0xE051_0001]); // SUBS r0, r1, r1
    cpu.regs.set(1, 0x1234);
    cpu.step().unwrap();
    assert_eq!(cpu.regs.get(0), 0);
    assert_eq!(flags(&cpu), (false, true, true, false));
}

#[test]
fn cmp_sets_flags_without_writing() {
    let mut cpu = cpu_with(&[0xE351_0005]); // CMP r1, #5
    cpu.regs.set(1, 3);
    cpu.step().unwrap();
    assert_eq!(cpu.regs.get(1), 3);
    assert_eq!(flags(&cpu), (true, false, false, false)); // 3 - 5 borrows
}

#[test]
fn lsr_immediate_zero_shifts_by_32() {
    let mut cpu = cpu_with(&[0xE1B0_0021]); // MOVS r0, r1, LSR #32
    cpu.regs.set(1, 0x8000_0001);
    cpu.step().unwrap();
    assert_eq!(cpu.regs.get(0), 0);
    assert_eq!(flags(&cpu), (false, true, true, false));
}

#[test]
fn ror_immediate_zero_is_rrx() {
    let mut cpu = cpu_with(&[0xE1B0_0061]); // MOVS r0, r1, RRX
    cpu.regs.cpsr.set_flag(C, true);
    cpu.regs.set(1, 2);
    cpu.step().unwrap();
    assert_eq!(cpu.regs.get(0), 0x8000_0001);
    assert_eq!(flags(&cpu), (true, false, false, false));
}

#[test]
fn rotated_immediate_and_register_shift() {
    let mut cpu = cpu_with(&[0xE3A0_04FF, 0xE1A0_3211]); // MOV r0, #0xFF000000 ; MOV r3, r1, LSL r2
    cpu.regs.set(1, 1);
    cpu.regs.set(2, 4);
    cpu.step().unwrap();
    assert_eq!(cpu.regs.get(0), 0xFF00_0000);
    cpu.step().unwrap();
    assert_eq!(cpu.regs.get(3), 16);
}

#[test]
fn movs_pc_lr_returns_from_an_interrupt() {
    let mut cpu = cpu_with(&[0xE1A0_0000]);
    cpu.irq();
    assert_eq!(cpu.regs.cpsr.mode(), Mode::Irq);
    cpu.pipeline[0] = 0xE1B0_F00E; // MOVS pc, lr
    cpu.step().unwrap();
    assert_eq!(cpu.regs.cpsr.mode(), Mode::System);
    assert_eq!(cpu.exec_addr(), 0x0800_0004);
}

#[test]
fn thumb_add_immediate_and_mov() {
    let mut cpu = thumb_cpu_with(&[0x1CC8, 0x2200]); // ADD r0, r1, #3 ; MOV r2, #0
    cpu.regs.set(1, 5);
    cpu.step().unwrap();
    assert_eq!(cpu.regs.get(0), 8);
    cpu.step().unwrap();
    assert_eq!(cpu.regs.get(2), 0);
    assert!(cpu.regs.cpsr.flag(Z));
    assert_eq!(cpu.exec_addr(), 0x0800_0004);
}

#[test]
fn thumb_neg_and_mul() {
    let mut cpu = thumb_cpu_with(&[0x4248, 0x4348]); // NEG r0, r1 ; MUL r0, r1
    cpu.regs.set(1, 1);
    cpu.step().unwrap();
    assert_eq!(cpu.regs.get(0), 0xFFFF_FFFF);
    assert!(cpu.regs.cpsr.flag(N));
    cpu.regs.set(0, 6);
    cpu.regs.set(1, 7);
    cpu.step().unwrap();
    assert_eq!(cpu.regs.get(0), 42);
}

#[test]
fn thumb_bx_returns_to_arm() {
    let mut cpu = thumb_cpu_with(&[0x4700]); // BX r0
    cpu.regs.set(0, 0x0800_0200);
    cpu.step().unwrap();
    assert!(!cpu.regs.cpsr.thumb());
    assert_eq!(cpu.exec_addr(), 0x0800_0200);
}

#[test]
fn thumb_pc_relative_load() {
    // LDR r0, [pc, #4]: pc reads 0x08000004, so the word at 0x08000008
    let mut cpu = thumb_cpu_with(&[0x4801, 0, 0, 0, 0x5678, 0x1234]);
    cpu.step().unwrap();
    assert_eq!(cpu.regs.get(0), 0x1234_5678);
}
