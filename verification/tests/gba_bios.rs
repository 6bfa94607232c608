use termboy::gba::bus::Bus;
use termboy::gba::cpu::{Cpu, ExecError, Outcome};
use termboy::gba::psr::Mode;

/// Cpu with ARM opcodes placed at the cartridge entry point 0x08000000.
fn cpu_with(prog: &[u32]) -> Cpu {
    let mut rom = vec![0u8; 0x4000];
    for (i, op) in prog.iter().enumerate() {
        rom[i * 4..i * 4 + 4].copy_from_slice(&op.to_le_bytes());
    }
    Cpu::new(Bus::new(rom))
}

/// Execute one SWI `f` with r0-r2 preloaded.
fn swi(f: u32, r: [u32; 3]) -> Cpu {
    let mut cpu = cpu_with(&[0xEF00_0000 | (f << 16)]);
    for (i, v) in r.into_iter().enumerate() {
        cpu.regs.set(i, v);
    }
    let _ = cpu.step();
    cpu
}

#[test]
fn divarm_swaps_the_operands() {
    let cpu = swi(0x07, [3, 100, 0]);
    assert_eq!(cpu.regs.get(0), 33);
    assert_eq!(cpu.regs.get(1), 1);
}

#[test]
fn div_reports_the_absolute_quotient_and_refuses_zero() {
    let cpu = swi(0x06, [(-7i32) as u32, 2, 0]);
    assert_eq!(cpu.regs.get(0) as i32, -3);
    assert_eq!(cpu.regs.get(1) as i32, -1);
    assert_eq!(cpu.regs.get(3), 3);
    let mut cpu = cpu_with(&[0xEF06_0000]);
    cpu.regs.set(1, 0);
    assert_eq!(cpu.step(), Err(ExecError::DivideByZero { addr: 0x0800_0000 }));
}

#[test]
fn sqrt_is_exact_at_boundaries() {
    for (n, r) in [(0u32, 0u32), (1, 1), (3, 1), (4, 2), (99, 9), (100, 10), (0xFFFF_FFFF, 0xFFFF)] {
        assert_eq!(swi(0x08, [n, 0, 0]).regs.get(0), r, "sqrt({n})");
    }
}

#[test]
fn arctan2_hits_the_cardinals_and_diagonal() {
    assert_eq!(swi(0x0A, [0x100, 0, 0]).regs.get(0), 0);
    assert_eq!(swi(0x0A, [(-0x100i32) as u32, 0, 0]).regs.get(0), 0x8000);
    assert_eq!(swi(0x0A, [0, 0x100, 0]).regs.get(0), 0x4000);
    assert_eq!(swi(0x0A, [0, (-0x100i32) as u32, 0]).regs.get(0), 0xC000);
    let diag = swi(0x0A, [0x100, 0x100, 0]).regs.get(0);
    assert!((0x1FFF..=0x2001).contains(&diag), "45 deg = {diag:#X}");
}

#[test]
fn bios_checksum_is_the_ds_value() {
    assert_eq!(swi(0x0D, [0, 0, 0]).regs.get(0), 0xBAAE_187F);
}

#[test]
fn midi_key_to_freq_hands_the_float_math_to_the_host() {
    let mut cpu = cpu_with(&[0xEF1F_0000]);
    cpu.bus.write32(0x0200_0004, 88_0000); // WaveData base frequency word
    cpu.regs.set(0, 0x0200_0000);
    cpu.regs.set(1, 180);
    cpu.regs.set(2, 0);
    assert_eq!(cpu.step(), Ok(Outcome::KeyToFreq { base: 88_0000, key: 180, fine: 0 }));
}

#[test]
fn sound_driver_calls_are_inert() {
    let cpu = swi(0x1A, [0, 0, 0]); // SoundDriverInit must not fail
    assert_eq!(cpu.regs.cpsr.mode(), Mode::System);
}

#[test]
fn unknown_system_calls_are_reported() {
    let mut cpu = cpu_with(&[0xEF2A_0000]);
    assert_eq!(cpu.step(), Err(ExecError::UnknownSysCall { function: 0x2A, addr: 0x0800_0000 }));
}

#[test]
fn register_ram_reset_wipes_selected_regions_and_blanks() {
    let mut cpu = cpu_with(&[0xEF01_0000]);
    cpu.bus.write32(0x0200_0000, 0xDEAD_BEEF);
    cpu.bus.write32(0x0300_0000, 0xDEAD_BEEF);
    cpu.bus.write32(0x0300_7F00, 0xCAFE_F00D); // stack area: preserved
    cpu.regs.set(0, 0x01); // EWRAM only
    let _ = cpu.step();
    assert_eq!(cpu.bus.read32(0x0200_0000), 0);
    assert_eq!(cpu.bus.read32(0x0300_0000), 0xDEAD_BEEF);
    assert_eq!(cpu.bus.read32(0x0300_7F00), 0xCAFE_F00D);
    assert_eq!(cpu.bus.read16(0x0400_0000), 0x0080); // forced blank
}

#[test]
fn cpu_set_halfword_copy_and_word_fill() {
    let mut cpu = cpu_with(&[0xEF0B_0000]);
    for i in 0..4u32 {
        cpu.bus.write16(0x0200_0000 + i * 2, 0x1110 + i as u16);
    }
    cpu.regs.set(0, 0x0200_0000);
    cpu.regs.set(1, 0x0200_1000);
    cpu.regs.set(2, 4); // 4 halfwords, copy
    let _ = cpu.step();
    assert_eq!(cpu.bus.read16(0x0200_1000), 0x1110);
    assert_eq!(cpu.bus.read16(0x0200_1006), 0x1113);
    assert_eq!(cpu.bus.read16(0x0200_1008), 0);

    let mut cpu = cpu_with(&[0xEF0B_0000]);
    cpu.bus.write32(0x0200_0000, 0xAABB_CCDD);
    cpu.regs.set(0, 0x0200_0000);
    cpu.regs.set(1, 0x0200_2000);
    cpu.regs.set(2, 3 | (1 << 24) | (1 << 26)); // 3 words, fill, 32-bit
    let _ = cpu.step();
    assert_eq!(cpu.bus.read32(0x0200_2008), 0xAABB_CCDD);
    assert_eq!(cpu.bus.read32(0x0200_200C), 0);
}

#[test]
fn cpu_fast_set_rounds_up_to_eight_words() {
    let mut cpu = cpu_with(&[0xEF0C_0000]);
    cpu.bus.write32(0x0200_0000, 0x5555_AAAA);
    cpu.regs.set(0, 0x0200_0000);
    cpu.regs.set(1, 0x0200_1000);
    cpu.regs.set(2, 1 | (1 << 24)); // 1 word requested -> 8 written
    let _ = cpu.step();
    assert_eq!(cpu.bus.read32(0x0200_101C), 0x5555_AAAA);
    assert_eq!(cpu.bus.read32(0x0200_1020), 0);
}

#[test]
fn bit_unpack_expands_1bpp_to_4bpp() {
    let mut cpu = cpu_with(&[0xEF10_0000]);
    cpu.bus.write8(0x0200_0000, 0b1000_0001); // source byte
    // info block: len=1, srcW=1, dstW=4, offset=1
    cpu.bus.write16(0x0200_0100, 1);
    cpu.bus.write8(0x0200_0102, 1);
    cpu.bus.write8(0x0200_0103, 4);
    cpu.bus.write32(0x0200_0104, 1);
    cpu.regs.set(0, 0x0200_0000);
    cpu.regs.set(1, 0x0200_1000);
    cpu.regs.set(2, 0x0200_0100);
    let _ = cpu.step();
    // LSB-first: set bits become 1+1=2, clear bits stay 0 (no zero flag)
    assert_eq!(cpu.bus.read32(0x0200_1000), 0x2000_0002);
}

/// Place `blob` in EWRAM at 0x02000000 and run SWI `f` with dst as given.
fn unpack(f: u32, blob: &[u8], dst: u32) -> Cpu {
    let mut cpu = cpu_with(&[0xEF00_0000 | (f << 16)]);
    for (i, &b) in blob.iter().enumerate() {
        cpu.bus.write8(0x0200_0000 + i as u32, b);
    }
    cpu.regs.set(0, 0x0200_0000);
    cpu.regs.set(1, dst);
    let _ = cpu.step();
    cpu
}

#[test]
fn lz77_literal_plus_backreference() {
    // "AB" then a len-4 disp-2 backref => "ABABAB"
    let blob = [0x10, 6, 0, 0, 0b0010_0000, b'A', b'B', 0x10, 0x01];
    let mut cpu = unpack(0x11, &blob, 0x0200_1000);
    for (i, c) in b"ABABAB".iter().enumerate() {
        assert_eq!(cpu.bus.read8(0x0200_1000 + i as u32), *c);
    }
    // the Vram flavor writes the same bytes, halfword-wise, into VRAM
    let mut cpu = unpack(0x12, &blob, 0x0600_0000);
    assert_eq!(cpu.bus.read16(0x0600_0000), u16::from_le_bytes([b'A', b'B']));
    assert_eq!(cpu.bus.read16(0x0600_0004), u16::from_le_bytes([b'A', b'B']));
}

#[test]
fn lz77_reference_before_the_start_is_refused() {
    let blob = [0x10, 6, 0, 0, 0b1000_0000, 0x10, 0x05];
    let mut cpu = cpu_with(&[0xEF11_0000]);
    for (i, &b) in blob.iter().enumerate() {
        cpu.bus.write8(0x0200_0000 + i as u32, b);
    }
    cpu.regs.set(0, 0x0200_0000);
    assert_eq!(cpu.step(), Err(ExecError::BadArgument { function: 0x11, addr: 0x0800_0000 }));
}

#[test]
fn rl_run_and_literal() {
    // run of five 0x7C, then two literals
    let blob = [0x30, 7, 0, 0, 0x82, 0x7C, 0x01, b'x', b'y'];
    let mut cpu = unpack(0x14, &blob, 0x0200_1000);
    assert_eq!(cpu.bus.read8(0x0200_1004), 0x7C);
    assert_eq!(cpu.bus.read8(0x0200_1005), b'x');
    assert_eq!(cpu.bus.read8(0x0200_1006), b'y');
}

#[test]
fn huffman_8bit_two_symbol_tree() {
    // header: 8-bit symbols, type 2, size 4; tree: size byte 1,
    // root (both children leaves, offset 0), leaves 'A' and 'B';
    // stream: one word, bits MSB-first: 0,1,1,0 -> "ABBA"
    let blob = [
        0x28, 4, 0, 0, // header
        1, 0xC0, b'A', b'B', // tree
        0x00, 0x00, 0x00, 0x60, // stream word 0x60000000 (LE)
    ];
    let mut cpu = unpack(0x13, &blob, 0x0200_1000);
    assert_eq!(cpu.bus.read32(0x0200_1000), u32::from_le_bytes(*b"ABBA"));
}

#[test]
fn diff_filters_integrate() {
    let blob8 = [0x80, 3, 0, 0, 1, 1, 1];
    let mut cpu = unpack(0x16, &blob8, 0x0200_1000);
    assert_eq!(cpu.bus.read8(0x0200_1002), 3);
    let blob16 = [0x81, 4, 0, 0, 0x10, 0x00, 0x10, 0x00];
    let mut cpu = unpack(0x18, &blob16, 0x0200_1000);
    assert_eq!(cpu.bus.read16(0x0200_1002), 0x20);
}

#[test]
fn soft_reset_restarts_at_the_cartridge() {
    let mut cpu = cpu_with(&[0xEF00_0000]);
    cpu.bus.write8(0x0300_7FFA, 0); // return-to-ROM flag
    cpu.regs.set(4, 0x1234);
    let _ = cpu.step();
    assert_eq!(cpu.exec_addr(), 0x0800_0000);
    assert_eq!(cpu.regs.get(13), 0x0300_7F00); // stacks re-set
    assert_eq!(cpu.bus.read32(0x0300_7FF8), 0); // BIOS area cleared
}

#[test]
fn intr_wait_halts_until_the_flag_arrives() {
    let mut cpu = cpu_with(&[0xEF05_0000]); // VBlankIntrWait
    cpu.step().unwrap();
    assert!(cpu.bus.halted);
    assert_eq!(cpu.exec_addr(), 0x0800_0000); // parked on the call
    cpu.bus.write16(0x0300_7FF8, 1); // the handler acknowledges vblank
    cpu.bus.halted = false;
    cpu.step().unwrap();
    assert_eq!(cpu.exec_addr(), 0x0800_0004); // satisfied: past the call
    assert_eq!(cpu.bus.read16(0x0300_7FF8), 0);
}
