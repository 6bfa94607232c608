use termboy::gb::apu::{Apu, SAMPLE_SCALE};
use termboy::gb::bus::Bus;
use termboy::gb::cartridge::Cartridge;
use termboy::gb::cpu::{Cpu, CpuError};
use termboy::gb::registers::{C, H, N, Z};

/// CPU with `prog` placed at the post-boot entry point 0x0100.
fn cpu_with(prog: &[u8]) -> Cpu {
    let mut rom = vec![0u8; 0x8000];
    rom[0x147] = 0x00;
    rom[0x100..0x100 + prog.len()].copy_from_slice(prog);
    Cpu::new(Bus::new(Cartridge::new(rom).unwrap()))
}

// ---------------------------------------------------------------- cpu

#[test]
fn nop_takes_one_mcycle() {
    let mut cpu = cpu_with(&[0x00]);
    cpu.step().unwrap();
    assert_eq!(cpu.regs.pc, 0x101);
    assert_eq!(cpu.bus.cycles, 4);
}

#[test]
fn ld_r_r_copies_register() {
    let mut cpu = cpu_with(&[0x78]); // LD A,B
    cpu.regs.b = 0x42;
    cpu.step().unwrap();
    assert_eq!(cpu.regs.a, 0x42);
    assert_eq!(cpu.bus.cycles, 4);
}

#[test]
fn ld_r_n_loads_immediate() {
    let mut cpu = cpu_with(&[0x06, 0x42]); // LD B,0x42
    cpu.step().unwrap();
    assert_eq!(cpu.regs.b, 0x42);
    assert_eq!(cpu.bus.cycles, 8);
}

#[test]
fn ld_hl_indirect_reads_and_writes_memory() {
    let mut cpu = cpu_with(&[0x36, 0xAB, 0x7E]); // LD (HL),0xAB ; LD A,(HL)
    cpu.regs.set_hl(0xC000);
    cpu.step().unwrap();
    assert_eq!(cpu.bus.cycles, 12); // fetch + imm + write
    cpu.step().unwrap();
    assert_eq!(cpu.regs.a, 0xAB);
    assert_eq!(cpu.bus.cycles, 12 + 8);
}

#[test]
fn ld_a_hli_reads_and_increments() {
    let mut cpu = cpu_with(&[0x2A]); // LD A,(HL+)
    cpu.regs.set_hl(0xC000);
    cpu.bus.write(0xC000, 0x77);
    cpu.step().unwrap();
    assert_eq!(cpu.regs.a, 0x77);
    assert_eq!(cpu.regs.hl(), 0xC001);
    assert_eq!(cpu.bus.cycles, 8);
}

#[test]
fn ldh_n_a_writes_high_page() {
    let mut cpu = cpu_with(&[0xE0, 0x80]); // LDH (0x80),A -> 0xFF80 (HRAM)
    cpu.regs.a = 0x5A;
    cpu.step().unwrap();
    assert_eq!(cpu.bus.read(0xFF80), 0x5A);
    assert_eq!(cpu.bus.cycles, 12);
}

#[test]
fn ld_a_nn_absolute() {
    let mut cpu = cpu_with(&[0xFA, 0x00, 0xC0]); // LD A,(0xC000)
    cpu.bus.write(0xC000, 0x99);
    cpu.step().unwrap();
    assert_eq!(cpu.regs.a, 0x99);
    assert_eq!(cpu.bus.cycles, 16);
}

#[test]
fn ld_rr_nn_and_push_pop_roundtrip() {
    // LD BC,0xBEEF ; PUSH BC ; POP DE
    let mut cpu = cpu_with(&[0x01, 0xEF, 0xBE, 0xC5, 0xD1]);
    cpu.step().unwrap();
    assert_eq!(cpu.regs.bc(), 0xBEEF);
    assert_eq!(cpu.bus.cycles, 12);
    cpu.step().unwrap(); // PUSH BC: 16 T
    assert_eq!(cpu.bus.cycles, 12 + 16);
    cpu.step().unwrap(); // POP DE: 12 T
    assert_eq!(cpu.regs.de(), 0xBEEF);
    assert_eq!(cpu.bus.cycles, 12 + 16 + 12);
}

#[test]
fn pop_af_masks_flag_low_nibble() {
    let mut cpu = cpu_with(&[0xF1]); // POP AF
    cpu.regs.sp = 0xC000;
    cpu.bus.write(0xC000, 0xFF); // low byte -> F
    cpu.bus.write(0xC001, 0x12); // high byte -> A
    cpu.step().unwrap();
    assert_eq!(cpu.regs.af(), 0x12F0);
}

#[test]
fn ld_nn_sp_stores_both_bytes() {
    let mut cpu = cpu_with(&[0x08, 0x00, 0xC0]); // LD (0xC000),SP
    cpu.regs.sp = 0xABCD;
    cpu.step().unwrap();
    assert_eq!(cpu.bus.read(0xC000), 0xCD);
    assert_eq!(cpu.bus.read(0xC001), 0xAB);
    assert_eq!(cpu.bus.cycles, 20);
}

#[test]
fn ld_hl_sp_plus_e_sets_carries_from_low_byte() {
    let mut cpu = cpu_with(&[0xF8, 0x02]); // LD HL,SP+2
    cpu.regs.sp = 0xFFFE;
    cpu.step().unwrap();
    assert_eq!(cpu.regs.hl(), 0x0000);
    assert!(cpu.regs.flag(H) && cpu.regs.flag(C));
    assert!(!cpu.regs.flag(Z) && !cpu.regs.flag(N));
    assert_eq!(cpu.bus.cycles, 12);
}

#[test]
fn add_and_sub_set_half_carry_and_carry() {
    let mut cpu = cpu_with(&[0xC6, 0x01, 0xD6, 0x01]); // ADD A,1 ; SUB A,1
    cpu.regs.a = 0xFF;
    cpu.step().unwrap();
    assert_eq!(cpu.regs.a, 0x00);
    assert_eq!(cpu.regs.f, 0x80 | 0x20 | 0x10); // Z H C
    cpu.step().unwrap();
    assert_eq!(cpu.regs.a, 0xFF);
    assert_eq!(cpu.regs.f, 0x40 | 0x20 | 0x10); // N H C
}

#[test]
fn daa_adjusts_bcd_addition() {
    let mut cpu = cpu_with(&[0xC6, 0x27, 0x27]); // ADD A,0x27 ; DAA
    cpu.regs.a = 0x15;
    cpu.step().unwrap();
    cpu.step().unwrap();
    assert_eq!(cpu.regs.a, 0x42);
    assert!(!cpu.regs.flag(C));
}

#[test]
fn cb_swap_bit_res_set() {
    // SWAP B ; BIT 7,B ; RES 0,B ; SET 7,C
    let mut cpu = cpu_with(&[0xCB, 0x30, 0xCB, 0x78, 0xCB, 0x80, 0xCB, 0xF9]);
    cpu.regs.b = 0x1F;
    cpu.regs.c = 0x00;
    cpu.step().unwrap();
    assert_eq!(cpu.regs.b, 0xF1);
    assert_eq!(cpu.bus.cycles, 8);
    cpu.step().unwrap();
    assert!(!cpu.regs.flag(Z) && cpu.regs.flag(H));
    cpu.step().unwrap();
    assert_eq!(cpu.regs.b, 0xF0);
    cpu.step().unwrap();
    assert_eq!(cpu.regs.c, 0x80);
}

#[test]
fn call_and_ret_round_trip() {
    // CALL 0x0110 ; ... at 0x0110: RET
    let mut prog = vec![0u8; 0x11];
    prog[0] = 0xCD;
    prog[1] = 0x10;
    prog[2] = 0x01;
    prog[0x10] = 0xC9;
    let mut cpu = cpu_with(&prog);
    cpu.step().unwrap();
    assert_eq!(cpu.regs.pc, 0x0110);
    assert_eq!(cpu.regs.sp, 0xFFFC);
    assert_eq!(cpu.bus.cycles, 24);
    cpu.step().unwrap();
    assert_eq!(cpu.regs.pc, 0x0103);
    assert_eq!(cpu.regs.sp, 0xFFFE);
    assert_eq!(cpu.bus.cycles, 24 + 16);
}

#[test]
fn jr_not_taken_costs_two_cycles() {
    let mut cpu = cpu_with(&[0x20, 0x05]); // JR NZ,+5 with Z set
    cpu.regs.f = 0x80;
    cpu.step().unwrap();
    assert_eq!(cpu.regs.pc, 0x0102);
    assert_eq!(cpu.bus.cycles, 8);
}

#[test]
fn interrupt_is_serviced_after_ei_delay() {
    let mut cpu = cpu_with(&[0xFB, 0x00, 0x00]); // EI ; NOP ; NOP
    cpu.bus.inte = 0x04;
    cpu.bus.intf = 0x04; // timer
    cpu.step().unwrap(); // EI
    assert!(!cpu.ime);
    cpu.step().unwrap(); // NOP: IME becomes set
    assert!(cpu.ime);
    cpu.step().unwrap(); // service
    assert_eq!(cpu.regs.pc, 0x0050);
    assert!(!cpu.ime);
    assert_eq!(cpu.bus.intf & 0x04, 0);
    assert_eq!(cpu.bus.read(0xFFFC), 0x02); // return address 0x0102
    assert_eq!(cpu.bus.read(0xFFFD), 0x01);
}

#[test]
fn halt_with_ime_off_and_pending_irq_triggers_halt_bug() {
    let mut cpu = cpu_with(&[0x76, 0x04]); // HALT ; INC B
    cpu.bus.inte = 0x01;
    cpu.bus.intf = 0x01;
    cpu.step().unwrap();
    assert!(!cpu.halted && cpu.halt_bug);
    cpu.step().unwrap(); // INC B fetched without advancing PC
    assert_eq!(cpu.regs.b, 0x01);
    assert_eq!(cpu.regs.pc, 0x0101);
}

#[test]
fn invalid_opcode_is_reported() {
    let mut cpu = cpu_with(&[0xD3]);
    assert_eq!(cpu.step(), Err(CpuError::InvalidOpcode { op: 0xD3, addr: 0x0100 }));
}

// ---------------------------------------------------------------- bus

fn bus() -> Bus {
    let mut rom = vec![0u8; 0x8000];
    rom[0x147] = 0x00;
    rom[0x1000] = 0x5A;
    Bus::new(Cartridge::new(rom).unwrap())
}

#[test]
fn memory_map_routes_correctly() {
    let mut b = bus();
    assert_eq!(b.read(0x1000), 0x5A); // cart ROM
    b.write(0xC123, 0x42); // WRAM
    assert_eq!(b.read(0xC123), 0x42);
    assert_eq!(b.read(0xE123), 0x42); // echo RAM mirrors WRAM
    b.write(0xFF80, 0x99); // HRAM
    assert_eq!(b.read(0xFF80), 0x99);
    b.write(0xFFFF, 0x1F); // IE
    assert_eq!(b.read(0xFFFF), 0x1F);
    assert_eq!(b.read(0xFEA0), 0xFF); // unusable region
}

#[test]
fn tick_advances_4_tcycles_and_drives_timer() {
    let mut b = bus();
    for _ in 0..64 {
        b.tick();
    }
    assert_eq!(b.cycles, 256);
    assert_eq!(b.read(0xFF04), 1); // DIV advanced once
}

#[test]
fn timer_interrupt_sets_if_bit_2() {
    let mut b = bus();
    b.write(0xFF07, 0b101); // enable, fastest rate
    b.write(0xFF06, 0x00);
    b.write(0xFF05, 0xFF);
    for _ in 0..16 {
        b.tick(); // overflow + 4-cycle reload happen within these 64 T-cycles
    }
    assert_eq!(b.read(0xFF0F) & 0x04, 0x04);
}

#[test]
fn oam_dma_copies_160_bytes_over_160_mcycles() {
    let mut b = bus();
    for i in 0..0xA0u16 {
        b.write(0xC000 + i, i as u8);
    }
    b.write(0xFF46, 0xC0); // start DMA from 0xC000
    assert_eq!(b.read(0xFF46), 0xC0); // register reads back
    for _ in 0..159 {
        b.tick();
    }
    assert_eq!(b.read(0xFE9F), 0x00); // not finished yet
    b.tick();
    assert_eq!(b.read(0xFE00), 0x00);
    assert_eq!(b.read(0xFE9F), 0x9F); // all 160 bytes landed
}

fn cgb_bus() -> Bus {
    let mut b = bus();
    b.cgb = true;
    b.ppu.cgb = true;
    b
}

#[test]
fn svbk_banks_wram_d000_region() {
    let mut b = cgb_bus();
    b.write(0xFF70, 2);
    b.write(0xD000, 0x22);
    b.write(0xFF70, 3);
    b.write(0xD000, 0x33);
    b.write(0xC000, 0xCC); // bank 0 region unaffected by SVBK
    b.write(0xFF70, 2);
    assert_eq!(b.read(0xD000), 0x22);
    assert_eq!(b.read(0xC000), 0xCC);
    b.write(0xFF70, 0); // 0 selects bank 1
    b.write(0xD000, 0x11);
    b.write(0xFF70, 1);
    assert_eq!(b.read(0xD000), 0x11);
    assert_eq!(b.read(0xFF70), 0xF8 | 1);
}

#[test]
fn vbk_banks_vram() {
    let mut b = cgb_bus();
    b.write(0xFF4F, 0);
    b.write(0x8000, 0xAA);
    b.write(0xFF4F, 1);
    assert_eq!(b.read(0x8000), 0x00); // bank 1 is separate
    b.write(0x8000, 0xBB);
    b.write(0xFF4F, 0);
    assert_eq!(b.read(0x8000), 0xAA);
    assert_eq!(b.read(0xFF4F), 0xFE | 0);
}

#[test]
fn dmg_mode_ignores_banking_registers() {
    let mut b = bus(); // cgb = false
    b.write(0xFF70, 5);
    b.write(0xFF4F, 1);
    assert_eq!(b.read(0xFF70), 0xFF);
    assert_eq!(b.read(0xFF4F), 0xFF);
    b.write(0x8000, 0xAA);
    assert_eq!(b.read(0x8000), 0xAA); // always bank 0
}

#[test]
fn speed_switch_toggles_and_halves_ppu_rate() {
    let mut b = cgb_bus();
    b.write(0xFF4D, 1); // arm
    b.try_speed_switch();
    assert!(b.double_speed);
    assert_eq!(b.read(0xFF4D) & 0x81, 0x80); // doubled, no longer armed
    // one scanline now takes 228 M-cycles instead of 114
    for _ in 0..114 {
        b.tick();
    }
    assert_eq!(b.read(0xFF44), 0);
    for _ in 0..114 {
        b.tick();
    }
    assert_eq!(b.read(0xFF44), 1);
}

#[test]
fn general_hdma_copies_immediately() {
    let mut b = cgb_bus();
    for i in 0..32u16 {
        b.write(0xC000 + i, i as u8 + 1);
    }
    b.write(0xFF51, 0xC0);
    b.write(0xFF52, 0x00);
    b.write(0xFF53, 0x00); // dest 0x8000
    b.write(0xFF54, 0x00);
    b.write(0xFF55, 0x01); // 2 blocks, general
    assert_eq!(b.read(0x8000), 1);
    assert_eq!(b.read(0x801F), 32);
    assert_eq!(b.read(0xFF55), 0xFF); // complete
}

#[test]
fn hblank_hdma_copies_one_block_per_hblank() {
    let mut b = cgb_bus();
    for i in 0..32u16 {
        b.write(0xC000 + i, 0xAB);
    }
    b.write(0xFF51, 0xC0);
    b.write(0xFF52, 0x00);
    b.write(0xFF53, 0x00);
    b.write(0xFF54, 0x00);
    b.write(0xFF55, 0x81); // 2 blocks, hblank mode
    assert_eq!(b.read(0xFF55), 0x01); // active, 2 blocks left
    assert_eq!(b.read(0x8000), 0x00); // nothing copied yet
    // run to the first hblank (dot 252 of line 0 = 63 M-cycles)
    for _ in 0..64 {
        b.tick();
    }
    assert_eq!(b.read(0x8000), 0xAB);
    assert_eq!(b.read(0x8010), 0x00); // second block not yet
    assert_eq!(b.read(0xFF55), 0x00); // active, 1 block left
    // run to the next hblank (one full scanline = 114 M-cycles)
    for _ in 0..114 {
        b.tick();
    }
    assert_eq!(b.read(0x8010), 0xAB);
    assert_eq!(b.read(0xFF55), 0xFF); // done
}

#[test]
fn hblank_hdma_cancel_keeps_remaining_length() {
    let mut b = cgb_bus();
    b.write(0xFF55, 0x85); // 6 blocks, hblank mode
    b.write(0xFF55, 0x00); // cancel
    assert_eq!(b.read(0xFF55), 0x85); // inactive bit set, length preserved
}

#[test]
fn joypad_routes_through_p1() {
    let mut b = bus();
    assert_eq!(b.read(0xFF00), 0xFF); // post-boot: nothing selected, nothing pressed
    b.write(0xFF00, 0x20);
    assert_eq!(b.read(0xFF00), 0xEF); // directions selected, none pressed
}

#[test]
fn ly_register_reflects_ppu_state() {
    let mut b = bus();
    assert_eq!(b.read(0xFF44), 0);
    for _ in 0..114 {
        b.tick(); // 456 T-cycles = one scanline
    }
    assert_eq!(b.read(0xFF44), 1);
}

#[test]
fn serial_bytes_reach_the_output() {
    let mut b = bus();
    b.write(0xFF01, b'O');
    b.write(0xFF02, 0x81);
    b.write(0xFF01, b'K');
    b.write(0xFF02, 0x81);
    assert_eq!(b.serial.output(), b"OK");
}

#[test]
fn unused_sound_registers_read_as_ones() {
    let b = bus();
    assert_eq!(b.read(0xFF27), 0xFF);
    assert_eq!(b.read(0xFF2F), 0xFF);
}

// ---------------------------------------------------------------- apu

const SEQ: u32 = 8192; // one frame-sequencer step

fn apu() -> Apu {
    let mut a = Apu::new();
    a.set_sample_rate(48_000);
    a
}

fn trigger_ch2(a: &mut Apu, length: u8, length_enable: bool) {
    a.write(0xFF16, length & 0x3F); // duty 0, length
    a.write(0xFF17, 0xF0); // full volume, no envelope sweep
    a.write(0xFF18, 0x00);
    let nr24 = 0x80 | if length_enable { 0x40 } else { 0 };
    a.write(0xFF19, nr24);
}

#[test]
fn length_counter_expires_channel() {
    let mut a = apu();
    trigger_ch2(&mut a, 0x3E, true); // length = 2
    assert_eq!(a.read(0xFF26) & 0x02, 0x02); // ch2 on
    a.tick(SEQ * 4); // length clocks on steps 0,2 (2 clocks within 4 steps)
    assert_eq!(a.read(0xFF26) & 0x02, 0x00); // expired
}

#[test]
fn length_disabled_keeps_playing() {
    let mut a = apu();
    trigger_ch2(&mut a, 0x3E, false);
    a.tick(SEQ * 8);
    assert_eq!(a.read(0xFF26) & 0x02, 0x02);
}

#[test]
fn envelope_decays_volume() {
    let mut a = apu();
    a.write(0xFF16, 0x00);
    a.write(0xFF17, 0xF1); // vol 15, decrease, period 1
    a.write(0xFF19, 0x80); // trigger
    a.tick(SEQ * 8); // one full sequence: envelope clocks once (step 7)
    assert_eq!(a.ch2.env_vol, 14);
    a.tick(SEQ * 8 * 14);
    assert_eq!(a.ch2.env_vol, 0);
}

#[test]
fn sweep_overflow_disables_ch1() {
    let mut a = apu();
    a.write(0xFF10, 0x11); // period 1, add, shift 1
    a.write(0xFF12, 0xF0);
    a.write(0xFF13, 0xFF);
    a.write(0xFF14, 0x87); // freq 0x7FF, trigger -> immediate overflow check
    assert_eq!(a.read(0xFF26) & 0x01, 0x00); // 0x7FF + 0x3FF > 2047: off
}

#[test]
fn dac_off_silences_and_disables() {
    let mut a = apu();
    trigger_ch2(&mut a, 0, false);
    a.write(0xFF17, 0x00); // DAC off
    assert_eq!(a.read(0xFF26) & 0x02, 0x00);
}

#[test]
fn noise_lfsr_runs_and_produces_output() {
    let mut a = apu();
    a.write(0xFF21, 0xF0); // vol 15
    a.write(0xFF22, 0x00); // fastest: divisor 8, shift 0
    a.write(0xFF23, 0x80); // trigger
    // after trigger lfsr = 0x7FFF (all ones): output 0. Tick a while.
    a.tick(8 * 40);
    // LFSR has shifted: some zeros have entered bit 0 at some point
    assert_eq!(a.ch4.lfsr & 0x8000, 0); // 15-bit register
    assert_ne!(a.ch4.lfsr, 0x7FFF);
}

#[test]
fn wave_plays_ram_nibbles() {
    let mut a = apu();
    a.wave_ram[0] = 0xAB;
    a.write(0xFF1A, 0x80); // DAC on
    a.write(0xFF1C, 0x20); // volume 100%
    a.write(0xFF1D, 0x00);
    a.write(0xFF1E, 0x80); // trigger, freq 0 -> period (2048)*2
    assert_eq!(a.ch3.output(&a.wave_ram), 0x0A); // first nibble, high
    a.tick(2048 * 2);
    assert_eq!(a.ch3.output(&a.wave_ram), 0x0B);
}

#[test]
fn sample_pacing_matches_rate() {
    let mut a = apu();
    a.tick(4_194_304 / 60);
    let n = a.samples.len();
    assert!((795..=805).contains(&n), "got {n} samples"); // ~800 at 48kHz/60fps
}

#[test]
fn power_off_clears_registers_and_blocks_writes() {
    let mut a = apu();
    a.write(0xFF25, 0xAA);
    a.write(0xFF26, 0x00); // power off
    assert_eq!(a.read(0xFF25), 0x00);
    a.write(0xFF25, 0x55); // ignored while off
    assert_eq!(a.read(0xFF25), 0x00);
    assert_eq!(a.read(0xFF26) & 0x80, 0x00);
    a.write(0xFF26, 0x80); // power on
    a.write(0xFF25, 0x55);
    assert_eq!(a.read(0xFF25), 0x55);
}

#[test]
fn mix_pans_via_nr51() {
    let mut a = apu();
    a.write(0xFF24, 0x77);
    a.write(0xFF25, 0x02); // ch2 right only
    trigger_ch2(&mut a, 0, false);
    // find a sample where the duty is high: tick a bit and inspect mix
    a.tick(8192);
    let scale = SAMPLE_SCALE as f32;
    let (l, r) = a.samples.iter().fold((0.0f32, 0.0f32), |(al, ar), (sl, sr)| {
        (al.max((*sl as f32 / scale).abs()), ar.max((*sr as f32 / scale).abs()))
    });
    assert_eq!(l, 0.0);
    assert!(r > 0.0);
}

#[test]
fn mixed_sample_has_exact_scale() {
    let mut a = apu();
    a.write(0xFF24, 0x77); // both sides at full volume (x8)
    a.write(0xFF25, 0x22); // ch2 both sides
    a.write(0xFF16, 0xC0); // duty 3: high for 6 of 8 steps
    a.write(0xFF17, 0xF0);
    a.write(0xFF19, 0x80);
    a.set_sample_rate(4_194_304); // one sample per T-cycle
    a.tick(1);
    // duty position 0 of pattern 0x7E is low: level 2*0-15 = -15, times 8
    assert_eq!(a.samples[a.samples.len() - 1], (-120, -120));
}
