use termboy::gba::bus::{Bus, CYCLES_PER_LINE};
use termboy::gba::ppu::WIDTH;
use termboy::machine::Buttons;

fn bus() -> Bus {
    let mut rom = vec![0u8; 0x1000];
    rom[0] = 0xAA;
    rom[1] = 0xBB;
    Bus::new(rom)
}

// ---------------------------------------------------------------- memory map

#[test]
fn regions_route_and_mirror() {
    let mut b = bus();
    b.write32(0x0200_0000, 0x1122_3344);
    assert_eq!(b.read32(0x0200_0000), 0x1122_3344);
    assert_eq!(b.read32(0x0204_0000), 0x1122_3344); // EWRAM mirrors every 256K
    b.write16(0x0300_0000, 0xBEEF);
    assert_eq!(b.read16(0x0300_8000), 0xBEEF); // IWRAM mirrors every 32K
    b.write8(0x0500_0001, 0x7C);
    assert_eq!(b.read8(0x0500_0401), 0x7C); // palette mirrors every 1K
    assert_eq!(b.read16(0x0800_0000), 0xBBAA); // ROM, little-endian
    assert_eq!(b.read16(0x0A00_0000), 0xBBAA); // ROM mirror (waitstate 1)
    b.write16(0x0800_0000, 0x0000); // ROM writes ignored
    assert_eq!(b.read16(0x0800_0000), 0xBBAA);
}

#[test]
fn vram_mirror_quirk() {
    let mut b = bus();
    b.write8(0x0601_0000, 0x42);
    // 96K arranged 64K+32K; the 32K block appears twice per 128K window
    assert_eq!(b.read8(0x0601_8000), 0x42);
    assert_eq!(b.read8(0x0602_0000 + 0x1_0000), 0x42);
}

#[test]
fn accesses_are_force_aligned() {
    let mut b = bus();
    b.write32(0x0200_0000, 0x1122_3344);
    assert_eq!(b.read32(0x0200_0002), 0x1122_3344);
    assert_eq!(b.read16(0x0200_0001), 0x3344);
}

#[test]
fn every_access_costs_one_cycle() {
    let mut b = bus();
    b.read32(0x0200_0000);
    b.write8(0x0300_0000, 1);
    b.idle();
    assert_eq!(b.cycles, 3);
}

#[test]
fn dispstat_vblank_toggles_with_cycles() {
    let mut b = bus();
    assert_eq!(b.read16(0x0400_0004) & 1, 0); // line 0: not vblank
    b.cycles = 160 * 1232;
    assert_eq!(b.read16(0x0400_0004) & 1, 1); // line 160: vblank
    assert_eq!(b.read16(0x0400_0006), 160); // VCOUNT
    b.cycles = 227 * 1232;
    assert_eq!(b.read16(0x0400_0004) & 1, 0); // last line: flag clear
    b.cycles = 228 * 1232;
    assert_eq!(b.read16(0x0400_0006), 0); // wrapped to line 0
}

#[test]
fn io_stores_and_if_acknowledge() {
    let mut b = bus();
    b.write16(0x0400_0000, 0x0403); // DISPCNT readback
    assert_eq!(b.read16(0x0400_0000), 0x0403);
    b.raise_irq(0x0005);
    b.write16(0x0400_0202, 0x0001); // write-1-to-acknowledge clears bit 0
    assert_eq!(b.read16(0x0400_0202), 0x0004);
    assert_eq!(b.read16(0x0400_0130), 0x03FF); // KEYINPUT: nothing pressed
}

#[test]
fn byte_writes_to_palette_and_vram_duplicate_into_halfword() {
    let mut b = bus();
    b.write8(0x0500_0002, 0x4A);
    assert_eq!(b.read16(0x0500_0002), 0x4A4A);
    b.write8(0x0600_0001, 0x7C); // odd address: same halfword
    assert_eq!(b.read16(0x0600_0000), 0x7C7C);
}

#[test]
fn byte_writes_to_oam_are_ignored_and_16bit_writes_are_not_duplicated() {
    let mut b = bus();
    b.write8(0x0700_0000, 0xFF);
    assert_eq!(b.read16(0x0700_0000), 0x0000);
    b.write16(0x0500_0000, 0x1234); // must store 0x34, 0x12: no quirk
    assert_eq!(b.read16(0x0500_0000), 0x1234);
    b.write32(0x0601_0000, 0xAABB_CCDD);
    assert_eq!(b.read32(0x0601_0000), 0xAABB_CCDD);
}

#[test]
fn keyinput_reflects_buttons() {
    let mut b = bus();
    b.set_buttons(Buttons::A().with(Buttons::L()));
    assert_eq!(b.read16(0x0400_0130), 0x01FE);
    b.set_buttons(Buttons::default());
    assert_eq!(b.read16(0x0400_0130), 0x03FF);
}

#[test]
fn vblank_irq_raised_once_at_line_160() {
    let mut b = bus();
    b.write16(0x0400_0004, 1 << 3); // DISPSTAT: vblank IRQ enable
    b.cycles = 159 * 1232;
    b.catch_up();
    assert_eq!(b.read16(0x0400_0202), 0); // not yet
    b.cycles = 160 * 1232;
    b.catch_up();
    assert_eq!(b.read16(0x0400_0202) & 1, 1);
    b.write16(0x0400_0202, 1); // acknowledge
    b.cycles = 170 * 1232;
    b.catch_up(); // still the same vblank: no re-raise
    assert_eq!(b.read16(0x0400_0202) & 1, 0);
}

#[test]
fn vblank_irq_not_raised_when_disabled() {
    let mut b = bus();
    b.cycles = 161 * 1232;
    b.catch_up();
    assert_eq!(b.read16(0x0400_0202), 0);
}

#[test]
fn hblank_irq_fires_every_line_including_vblank_lines() {
    let mut b = bus();
    b.write16(0x0400_0004, 1 << 4); // hblank IRQ enable
    b.cycles = 1005;
    b.catch_up();
    assert_eq!(b.read16(0x0400_0202), 0);
    b.cycles = 1006;
    b.catch_up();
    assert_eq!(b.read16(0x0400_0202) & 2, 2);
    b.write16(0x0400_0202, 2);
    b.cycles = 200 * 1232 + 1006; // deep in vblank
    b.catch_up();
    assert_eq!(b.read16(0x0400_0202) & 2, 2);
}

#[test]
fn vcount_irq_on_matching_line_only() {
    let mut b = bus();
    b.write16(0x0400_0004, (42 << 8) | (1 << 5)); // VCOUNT=42 + IRQ enable
    b.cycles = 42 * 1232 - 1;
    b.catch_up();
    assert_eq!(b.read16(0x0400_0202), 0);
    b.cycles = 42 * 1232;
    b.catch_up();
    assert_eq!(b.read16(0x0400_0202) & 4, 4);
}

#[test]
fn keypad_irq_or_and_and_modes() {
    let mut b = bus();
    b.write16(0x0400_0132, (1 << 14) | 0x0003); // IRQ on A or B
    b.set_buttons(Buttons::B());
    assert_eq!(b.read16(0x0400_0202) & (1 << 12), 1 << 12);
    b.write16(0x0400_0202, 1 << 12); // acknowledge
    b.write16(0x0400_0132, (1 << 14) | (1 << 15) | 0x0003); // A AND B
    b.set_buttons(Buttons::A());
    assert_eq!(b.read16(0x0400_0202), 0);
    b.set_buttons(Buttons::A().with(Buttons::B()));
    assert_eq!(b.read16(0x0400_0202) & (1 << 12), 1 << 12);
}

#[test]
fn keypad_irq_needs_the_enable_bit() {
    let mut b = bus();
    b.write16(0x0400_0132, 0x03FF); // all keys selected, IRQ disabled
    b.set_buttons(Buttons::START());
    assert_eq!(b.read16(0x0400_0202), 0);
}

#[test]
fn out_of_bounds_rom_reads_open_bus() {
    let mut b = bus();
    // beyond the ROM's end: open bus returns the address bus pattern (addr/2)
    assert_eq!(b.read16(0x0800_2000), 0x1000);
}

#[test]
fn halt_register_write_halts_and_irq_wakes() {
    let mut b = bus();
    assert!(!b.halted);
    b.write8(0x0400_0301, 0);
    assert!(b.halted);
    b.write16(0x0400_0200, 0x0001); // IE: vblank
    assert!(!b.irq_asserted());
    b.raise_irq(1);
    assert!(b.irq_asserted());
    assert!(!b.irq_pending()); // IME off
    b.write16(0x0400_0208, 1);
    assert!(b.irq_pending());
}

#[test]
fn affine_reference_writes_mark_the_point_dirty() {
    let mut b = bus();
    b.ppu.bg_ref_dirty = [false, false];
    b.write16(0x0400_0028, 0x0100); // BG2X
    assert_eq!(b.ppu.bg_ref_dirty, [true, false]);
    b.write8(0x0400_003C, 0x01); // BG3Y
    assert_eq!(b.ppu.bg_ref_dirty, [true, true]);
}

#[test]
fn sound_fifo_port_writes_fill_the_fifos() {
    let mut b = bus();
    b.write32(0x0400_00A0, 0x0403_0201); // FIFO A
    b.write16(0x0400_00A4, 0x0605); // FIFO B
    assert_eq!(b.apu.fifo_a.bytes, vec![1u8, 2, 3, 4]);
    assert_eq!(b.apu.fifo_b.bytes, vec![5u8, 6]);
}

// ---------------------------------------------------------------- timers

#[test]
fn prescaler_divides_the_clock() {
    let mut b = bus();
    b.write16(0x0400_0102, 0x0081); // enable, prescaler /64
    b.cycles += 640;
    b.catch_up();
    assert_eq!(b.timers[0].counter, 10);
    b.cycles += 63;
    b.catch_up();
    assert_eq!(b.timers[0].counter, 10); // remainder carried, no tick yet
    b.cycles += 1;
    b.catch_up();
    assert_eq!(b.timers[0].counter, 11);
}

#[test]
fn overflow_reloads_and_raises_irq() {
    let mut b = bus();
    b.write16(0x0400_0100, 0xFFF0); // reload
    b.write16(0x0400_0102, 0x00C0); // enable + IRQ, prescaler /1
    b.cycles += 0x10;
    b.catch_up();
    assert_eq!(b.read16(0x0400_0100), 0xFFF0); // wrapped back to reload
    assert_eq!(b.read16(0x0400_0202) & (1 << 3), 1 << 3);
}

#[test]
fn enable_latches_reload_into_counter() {
    let mut b = bus();
    b.write16(0x0400_0104, 0x1234); // timer 1 reload
    b.write16(0x0400_0106, 0x0080); // enable
    assert_eq!(b.read16(0x0400_0104), 0x1234);
}

#[test]
fn cascade_counts_overflows_of_the_previous_timer() {
    let mut b = bus();
    b.write16(0x0400_0100, 0xFFFF); // timer 0 overflows every tick
    b.write16(0x0400_0102, 0x0080);
    b.write16(0x0400_0106, 0x0084); // timer 1: enable + cascade
    b.cycles += 5;
    b.catch_up();
    assert_eq!(b.read16(0x0400_0104), 5);
}

#[test]
fn disabled_timer_neither_counts_nor_cascades() {
    let mut b = bus();
    b.write16(0x0400_0100, 0xFFFF);
    // timer 0 NOT enabled; timer 1 cascades from it
    b.write16(0x0400_0106, 0x0084);
    b.cycles += 100;
    b.catch_up();
    assert_eq!(b.read16(0x0400_0100), 0);
    assert_eq!(b.read16(0x0400_0104), 0);
}

#[test]
fn many_overflows_in_one_batch() {
    let mut b = bus();
    b.write16(0x0400_0100, 0xFF00); // period 0x100
    b.write16(0x0400_0102, 0x00C0); // enable + IRQ
    b.cycles += 0x100 * 3 + 7;
    b.catch_up();
    assert_eq!(b.read16(0x0400_0100), 0xFF07);
    assert_eq!(b.read16(0x0400_0202) & (1 << 3), 1 << 3);
}

// ---------------------------------------------------------------- DMA

fn counting_bus() -> Bus {
    let mut rom = vec![0u8; 0x1000];
    for (i, b) in rom.iter_mut().enumerate() {
        *b = i as u8;
    }
    Bus::new(rom)
}

/// Program channel 3: ROM 0x08000000 -> EWRAM, n units, ctrl bits.
fn program_ch3(b: &mut Bus, count: u16, ctrl: u16) {
    b.write32(0x0400_00D4, 0x0800_0000);
    b.write32(0x0400_00D8, 0x0200_0000);
    b.write16(0x0400_00DC, count);
    b.write16(0x0400_00DE, ctrl);
}

#[test]
fn immediate_word_dma_copies_and_self_disables() {
    let mut b = counting_bus();
    program_ch3(&mut b, 4, 0x8000 | (1 << 10)); // enable, 32-bit, immediate
    let ch = b.dma_ready().expect("immediate DMA should be pending");
    b.run_dma(ch);
    assert_eq!(b.read32(0x0200_0000), 0x03020100);
    assert_eq!(b.read32(0x0200_000C), 0x0F0E0D0C);
    assert_eq!(b.read32(0x0200_0010), 0); // exactly 4 units
    assert_eq!(b.read16(0x0400_00DE) & 0x8000, 0); // enable cleared
    assert!(b.dma_ready().is_none());
    assert_eq!(b.read16(0x0400_0202), 0); // no IRQ unless requested
}

#[test]
fn halfword_dma_with_fixed_source_fills() {
    let mut b = counting_bus();
    b.write16(0x0200_0000, 0xBEEF); // source value in EWRAM
    b.write32(0x0400_00D4, 0x0200_0000);
    b.write32(0x0400_00D8, 0x0200_1000);
    b.write16(0x0400_00DC, 3);
    b.write16(0x0400_00DE, 0x8000 | (2 << 7)); // src fixed, 16-bit
    let ch = b.dma_ready().unwrap();
    b.run_dma(ch);
    assert_eq!(b.read16(0x0200_1000), 0xBEEF);
    assert_eq!(b.read16(0x0200_1004), 0xBEEF);
    assert_eq!(b.read16(0x0200_1006), 0); // 3 units only
}

#[test]
fn count_zero_means_max_and_irq_fires() {
    let mut b = counting_bus();
    // ch0 count field is 14-bit: 0 -> 0x4000 units
    b.write32(0x0400_00B0, 0x0800_0000);
    b.write32(0x0400_00B4, 0x0200_0000);
    b.write16(0x0400_00B8, 0);
    b.write16(0x0400_00BA, 0x8000 | (1 << 14)); // enable + IRQ
    let ch = b.dma_ready().unwrap();
    b.run_dma(ch);
    assert_eq!(b.read16(0x0400_0202) & (1 << 8), 1 << 8); // DMA0 IRQ
    // last halfword written: unit 0x3FFF read past the 4K ROM, so the
    // open-bus pattern (addr/2) proves all 0x4000 units transferred
    assert_eq!(b.read16(0x0200_7FFE), ((0x0800_7FFEu32 >> 1) & 0xFFFF) as u16);
}

#[test]
fn vblank_dma_waits_for_line_160() {
    let mut b = counting_bus();
    program_ch3(&mut b, 1, 0x8000 | (1 << 12)); // vblank timing
    assert!(b.dma_ready().is_none());
    b.cycles = 160 * 1232;
    b.catch_up();
    assert_eq!(b.dma_ready(), Some(3));
}

#[test]
fn hblank_repeat_dma_stays_enabled_and_reloads_dest() {
    let mut b = counting_bus();
    // dest inc+reload (3<<5), repeat (1<<9), hblank timing (2<<12)
    program_ch3(&mut b, 2, 0x8000 | (2 << 12) | (1 << 9) | (3 << 5));
    b.cycles = 1006; // first visible hblank
    b.catch_up();
    assert_eq!(b.dma_ready(), Some(3));
    b.run_dma(3);
    assert_eq!(b.read16(0x0400_00DE) & 0x8000, 0x8000); // still enabled
    b.write16(0x0200_0000, 0); // scrub, then prove dest reloaded
    b.cycles = 2 * 1232 + 1006;
    b.catch_up();
    let ch = b.dma_ready().unwrap();
    b.run_dma(ch);
    // dest snapped back to 0x02000000 while src kept going (ROM bytes 4-5)
    assert_eq!(b.read16(0x0200_0000), 0x0504);
}

#[test]
fn channel_zero_outranks_channel_three() {
    let mut b = counting_bus();
    program_ch3(&mut b, 1, 0x8000);
    b.write32(0x0400_00B0, 0x0800_0000);
    b.write32(0x0400_00B4, 0x0200_0100);
    b.write16(0x0400_00B8, 1);
    b.write16(0x0400_00BA, 0x8000);
    assert_eq!(b.dma_ready(), Some(0));
}

#[test]
fn disabling_a_channel_drops_pending_work() {
    let mut b = counting_bus();
    program_ch3(&mut b, 1, 0x8000);
    b.write16(0x0400_00DE, 0);
    assert!(b.dma_ready().is_none());
}

#[test]
fn decrementing_dma_walks_down() {
    let mut b = counting_bus();
    b.write32(0x0400_00D4, 0x0800_0006);
    b.write32(0x0400_00D8, 0x0200_0006);
    b.write16(0x0400_00DC, 2);
    b.write16(0x0400_00DE, 0x8000 | (1 << 7) | (1 << 5)); // both decrement, 16-bit
    let ch = b.dma_ready().unwrap();
    b.run_dma(ch);
    assert_eq!(b.read16(0x0200_0006), 0x0706);
    assert_eq!(b.read16(0x0200_0004), 0x0504);
    assert_eq!(b.read16(0x0200_0002), 0);
}

// ---------------------------------------------------------------- rendering

fn blank_bus() -> Bus {
    Bus::new(vec![0u8; 0x200])
}

fn set_dispcnt(b: &mut Bus, v: u16) {
    b.write16(0x0400_0000, v);
}

/// Advance the clock so scanline `line` has just completed, and render.
fn render_line(b: &mut Bus, line: u64) {
    b.cycles = (line + 1) * CYCLES_PER_LINE;
    b.catch_up();
}

/// One 8x8 4bpp tile at char_base, all pixels = `idx`, into tile slot `tile`.
fn fill_tile_4bpp(b: &mut Bus, char_base: u32, tile: u32, idx: u8) {
    let byte = idx | (idx << 4);
    for i in (0..32).step_by(2) {
        b.write16(0x0600_0000 + char_base + tile * 32 + i, u16::from_le_bytes([byte, byte]));
    }
}

/// Map entry at tile position (tx, ty) of screen block `sbb`.
fn set_entry(b: &mut Bus, screen_base: u32, sbb: u32, tx: u32, ty: u32, entry: u16) {
    b.write16(0x0600_0000 + screen_base + sbb * 0x800 + (ty * 32 + tx) * 2, entry);
}

fn check_catch_up_renders_only_completed_lines() {
    let mut b = blank_bus();
    b.cycles = CYCLES_PER_LINE - 1; // line 0 not finished yet
    b.catch_up();
    assert!(!b.ppu.frame_ready);
    b.write16(0x0500_0000, 0x7C00); // backdrop = blue, set BEFORE line completes
    b.cycles = CYCLES_PER_LINE; // line 0 done
    b.catch_up();
    assert_eq!(b.ppu.frame[0], 0x7C00); // line 0 rendered with current state
    assert_eq!(b.ppu.frame[WIDTH], 0x0000); // line 1 untouched so far
}

#[test]
fn ppu_catch_up_renders_only_completed_lines() {
    check_catch_up_renders_only_completed_lines();
}

#[test]
fn tests_catch_up_renders_only_completed_lines() {
    check_catch_up_renders_only_completed_lines();
}

fn check_frame_ready_after_line_159_and_only_then() {
    let mut b = blank_bus();
    b.cycles = 159 * CYCLES_PER_LINE;
    b.catch_up();
    assert!(!b.ppu.frame_ready);
    b.cycles = 160 * CYCLES_PER_LINE;
    b.catch_up();
    assert!(b.ppu.frame_ready);
    // vblank lines render nothing and don't re-trigger
    b.ppu.frame_ready = false;
    b.cycles = 228 * CYCLES_PER_LINE;
    b.catch_up();
    assert!(!b.ppu.frame_ready);
    // ...until the next frame's line 159 completes
    b.cycles = (228 + 160) * CYCLES_PER_LINE;
    b.catch_up();
    assert!(b.ppu.frame_ready);
}

#[test]
fn ppu_frame_ready_after_line_159_and_only_then() {
    check_frame_ready_after_line_159_and_only_then();
}

#[test]
fn tests_frame_ready_after_line_159_and_only_then() {
    check_frame_ready_after_line_159_and_only_then();
}

fn check_forced_blank_renders_white() {
    let mut b = blank_bus();
    set_dispcnt(&mut b, 0x0080);
    b.cycles = CYCLES_PER_LINE;
    b.catch_up();
    assert!(b.ppu.frame[..WIDTH].iter().all(|&p| p == 0x7FFF));
}

#[test]
fn ppu_forced_blank_renders_white() {
    check_forced_blank_renders_white();
}

#[test]
fn tests_forced_blank_renders_white() {
    check_forced_blank_renders_white();
}

fn check_unimplemented_modes_render_backdrop() {
    let mut b = blank_bus();
    set_dispcnt(&mut b, 0x0100); // mode 0, BG0 on, all tiles blank
    b.write16(0x0500_0000, 0x03E0); // green backdrop
    b.cycles = CYCLES_PER_LINE;
    b.catch_up();
    assert!(b.ppu.frame[..WIDTH].iter().all(|&p| p == 0x03E0));
}

#[test]
fn ppu_unimplemented_modes_render_backdrop() {
    check_unimplemented_modes_render_backdrop();
}

#[test]
fn tests_unimplemented_modes_render_backdrop() {
    check_unimplemented_modes_render_backdrop();
}

fn check_mode3_renders_direct_color_pixels() {
    let mut b = blank_bus();
    set_dispcnt(&mut b, 0x0403); // mode 3, BG2 on
    b.write16(0x0600_0000, 0x001F); // pixel (0,0) red
    b.write16(0x0600_0000 + 2 * (WIDTH as u32), 0x7C00); // pixel (0,1) blue
    b.cycles = 2 * CYCLES_PER_LINE;
    b.catch_up();
    assert_eq!(b.ppu.frame[0], 0x001F);
    assert_eq!(b.ppu.frame[WIDTH], 0x7C00);
    assert_eq!(b.ppu.frame[1], 0x0000); // untouched VRAM is black
}

#[test]
fn ppu_mode3_renders_direct_color_pixels() {
    check_mode3_renders_direct_color_pixels();
}

#[test]
fn tests_mode3_renders_direct_color_pixels() {
    check_mode3_renders_direct_color_pixels();
}

fn check_mode3_without_bg2_shows_backdrop() {
    let mut b = blank_bus();
    set_dispcnt(&mut b, 0x0003); // mode 3, BG2 OFF
    b.write16(0x0500_0000, 0x7C00); // blue backdrop
    b.write16(0x0600_0000, 0x001F);
    b.cycles = CYCLES_PER_LINE;
    b.catch_up();
    assert_eq!(b.ppu.frame[0], 0x7C00);
}

#[test]
fn ppu_mode3_without_bg2_shows_backdrop() {
    check_mode3_without_bg2_shows_backdrop();
}

#[test]
fn tests_mode3_without_bg2_shows_backdrop() {
    check_mode3_without_bg2_shows_backdrop();
}

fn check_mode4_renders_palette_indices_with_page_flip() {
    let mut b = blank_bus();
    set_dispcnt(&mut b, 0x0404); // mode 4, BG2, page 0
    b.write16(0x0500_0002, 0x001F); // palette[1] = red
    b.write16(0x0500_0004, 0x03E0); // palette[2] = green
    b.write16(0x0600_0000, 0x0201); // pixels (0,0)=idx1, (1,0)=idx2
    b.write16(0x0600_A000, 0x0102); // page 1 has them swapped
    b.cycles = CYCLES_PER_LINE;
    b.catch_up();
    assert_eq!(b.ppu.frame[0], 0x001F);
    assert_eq!(b.ppu.frame[1], 0x03E0);
    set_dispcnt(&mut b, 0x0414); // flip to page 1
    b.cycles = 228 * CYCLES_PER_LINE + CYCLES_PER_LINE; // next frame, line 0 done
    b.catch_up();
    assert_eq!(b.ppu.frame[0], 0x03E0);
    assert_eq!(b.ppu.frame[1], 0x001F);
}

#[test]
fn ppu_mode4_renders_palette_indices_with_page_flip() {
    check_mode4_renders_palette_indices_with_page_flip();
}

#[test]
fn tests_mode4_renders_palette_indices_with_page_flip() {
    check_mode4_renders_palette_indices_with_page_flip();
}

fn check_mode5_small_bitmap_with_backdrop_border() {
    let mut b = blank_bus();
    set_dispcnt(&mut b, 0x0405); // mode 5, BG2, page 0
    b.write16(0x0500_0000, 0x7C00); // blue backdrop
    b.write16(0x0600_0000, 0x001F); // pixel (0,0) of the 160x128 window
    b.cycles = CYCLES_PER_LINE;
    b.catch_up();
    assert_eq!(b.ppu.frame[0], 0x001F);
    assert_eq!(b.ppu.frame[160], 0x7C00); // x >= 160: backdrop
    // line 128+ is all backdrop
    b.cycles = 129 * CYCLES_PER_LINE;
    b.catch_up();
    assert!(b.ppu.frame[128 * WIDTH..129 * WIDTH].iter().all(|&p| p == 0x7C00));
}

#[test]
fn ppu_mode5_small_bitmap_with_backdrop_border() {
    check_mode5_small_bitmap_with_backdrop_border();
}

#[test]
fn tests_mode5_small_bitmap_with_backdrop_border() {
    check_mode5_small_bitmap_with_backdrop_border();
}

#[test]
fn text_bg_renders_4bpp_tile_with_palette_bank() {
    let mut b = blank_bus();
    set_dispcnt(&mut b, 0x0100); // mode 0, BG0
    b.write16(0x0400_0008, 0x0000); // BG0CNT: char base 0, screen base 0, 32x32
    b.write16(0x0500_0022, 0x001F); // palette bank 1, index 1 = red
    fill_tile_4bpp(&mut b, 0, 1, 1);
    set_entry(&mut b, 0, 0, 0, 0, 0x1001); // tile 1, palbank 1 at (0,0)
    render_line(&mut b, 0);
    assert_eq!(b.ppu.frame[0], 0x001F);
    assert_eq!(b.ppu.frame[8], 0x0000); // next tile is map entry 0 = tile 0 = blank
}

#[test]
fn text_bg_scrolls_and_wraps() {
    let mut b = blank_bus();
    set_dispcnt(&mut b, 0x0100);
    // screen base block 1: keep the map clear of tile 0's character data
    b.write16(0x0400_0008, 0x0100);
    b.write16(0x0500_0002, 0x03E0); // palette index 1 = green
    fill_tile_4bpp(&mut b, 0, 1, 1);
    set_entry(&mut b, 0x800, 0, 0, 0, 0x0001); // tile at map (0,0)
    b.write16(0x0400_0010, 250); // HOFS=250: map x wraps on-screen at x=6
    b.write16(0x0400_0012, 0x00F8); // VOFS=248: line 8 wraps to map y=0
    render_line(&mut b, 8);
    // screen (0,8): map coords (250, 0) -> tile (31,0) = blank
    assert_eq!(b.ppu.frame[8 * WIDTH], 0x0000);
    // screen x=6 -> map x=(6+250)&255=0 -> tile (0,0) -> green
    assert_eq!(b.ppu.frame[8 * WIDTH + 6], 0x03E0);
}

#[test]
fn text_bg_8bpp_and_flips() {
    let mut b = blank_bus();
    set_dispcnt(&mut b, 0x0200); // mode 0, BG1
    b.write16(0x0400_000A, 0x0080); // BG1CNT: 8bpp
    b.write16(0x0500_0000 + 2 * 7, 0x7C00); // palette index 7 = blue
    // 8bpp tile 1: only leftmost column = index 7
    for row in 0..8u32 {
        b.write16(0x0600_0000 + 64 + row * 8, 0x0007);
    }
    set_entry(&mut b, 0, 0, 0, 0, 0x0001); // tile 1
    set_entry(&mut b, 0, 0, 1, 0, 0x0401); // tile 1, hflip
    render_line(&mut b, 0);
    assert_eq!(b.ppu.frame[0], 0x7C00); // left column
    assert_eq!(b.ppu.frame[1], 0x0000);
    assert_eq!(b.ppu.frame[15], 0x7C00); // hflip: column shows at right edge
    assert_eq!(b.ppu.frame[8], 0x0000);
}

#[test]
fn text_bg_512_wide_uses_second_screen_block() {
    let mut b = blank_bus();
    set_dispcnt(&mut b, 0x0100);
    b.write16(0x0400_0008, 0x4000); // BG0CNT: size 1 (512x256)
    b.write16(0x0500_0002, 0x001F);
    fill_tile_4bpp(&mut b, 0, 1, 1);
    set_entry(&mut b, 0, 1, 0, 0, 0x0001); // tile in screen block 1 (x 256-511)
    b.write16(0x0400_0010, 256); // HOFS=256
    render_line(&mut b, 0);
    assert_eq!(b.ppu.frame[0], 0x001F);
}

#[test]
fn priority_and_window_pick_the_visible_layer() {
    let mut b = blank_bus();
    set_dispcnt(&mut b, 0x0300); // mode 0, BG0 + BG1
    b.write16(0x0400_0008, 0x0101); // BG0: priority 1, map block 1
    b.write16(0x0400_000A, 0x0100); // BG1: priority 0, map block 1
    b.write16(0x0500_0002, 0x001F); // index 1 red
    fill_tile_4bpp(&mut b, 0, 1, 1);
    set_entry(&mut b, 0x800, 0, 0, 0, 0x0001);
    b.write16(0x0400_0012, 0); // BG0 VOFS
    b.write16(0x0400_0016, 0); // BG1 VOFS
    render_line(&mut b, 0);
    assert_eq!(b.ppu.frame[0], 0x001F);
    // window 0 over x 0..4 shows only BG0 inside; the outside shows nothing
    set_dispcnt(&mut b, 0x2300);
    b.write16(0x0400_0040, 0x0004); // WIN0H: 0..4
    b.write16(0x0400_0044, 0x00A0); // WIN0V: 0..160
    b.write16(0x0400_0048, 0x0001); // WININ: BG0 only
    b.write16(0x0400_004A, 0x0000); // WINOUT: nothing
    b.write16(0x0500_0000, 0x7C00); // blue backdrop
    render_line(&mut b, 228);
    assert_eq!(b.ppu.frame[0], 0x001F);
    assert_eq!(b.ppu.frame[6], 0x7C00);
}

#[test]
fn brightness_effect_applies_to_first_targets() {
    let mut b = blank_bus();
    set_dispcnt(&mut b, 0x0000); // backdrop only
    b.write16(0x0500_0000, 0x0000); // black backdrop
    b.write16(0x0400_0050, (2 << 6) | (1 << 5)); // brighten, backdrop is first target
    b.write16(0x0400_0054, 16); // full strength
    render_line(&mut b, 0);
    assert_eq!(b.ppu.frame[0], 0x7FFF); // black brightened to white
}

#[test]
fn affine_bg_identity_renders_8bpp_map() {
    let mut b = blank_bus();
    set_dispcnt(&mut b, 0x0402); // mode 2, BG2
    b.write16(0x0400_000C, 0x0000); // BG2CNT: 128x128, char/screen base 0
    b.write16(0x0500_000E, 0x001F); // palette index 7 = red
    // affine map: one byte per entry; entry (1,0) = tile 1
    b.write8(0x0600_0000, 0x01); // byte-write quirk duplicates: entries 0+1
    b.write8(0x0600_0002, 0x00); // clear entries 2+3 back (only 0/1 = tile 1)
    // 8bpp tile 1, all pixels index 7
    for i in 0..32 {
        b.write16(0x0600_0000 + 64 + i * 2, 0x0707);
    }
    // entry 0 must be tile 0: rewrite the halfword precisely
    b.write16(0x0600_0000, 0x0100); // entry 0 = 0x00, entry 1 = 0x01
    // identity matrix: PA=PD=1.0 (0x100), PB=PC=0
    b.write16(0x0400_0020, 0x0100);
    b.write16(0x0400_0026, 0x0100);
    render_line(&mut b, 0);
    assert_eq!(b.ppu.frame[8], 0x001F); // x 8-15 = tile (1,0)
    assert_eq!(b.ppu.frame[0], 0x0000); // tile (0,0) = tile 0 = blank
}

#[test]
fn affine_bg_scale_and_reference_point() {
    let mut b = blank_bus();
    set_dispcnt(&mut b, 0x0402);
    b.write16(0x0400_000C, 0x0000);
    b.write16(0x0500_000E, 0x001F);
    b.write16(0x0600_0000, 0x0100); // map entry 1 = tile 1
    for i in 0..32 {
        b.write16(0x0600_0000 + 64 + i * 2, 0x0707);
    }
    b.write16(0x0400_0020, 0x0200); // PA = 2.0: texture moves 2px per screen px
    b.write16(0x0400_0026, 0x0100);
    render_line(&mut b, 0);
    assert_eq!(b.ppu.frame[4], 0x001F); // screen x4 -> texture x8
    assert_eq!(b.ppu.frame[8], 0x0000); // screen x8 -> texture x16: blank
    // reference point: start texture at (8,0) -> tile shows from screen x0
    b.write32(0x0400_0028, 8 << 8); // BG2X = 8.0 (write relatches)
    b.write16(0x0400_0020, 0x0100); // PA back to 1.0
    render_line(&mut b, 1); // next line picks up the relatch
    assert_eq!(b.ppu.frame[WIDTH], 0x001F); // screen x0 -> texture x8
}

#[test]
fn affine_bg_wrap_bit() {
    let mut b = blank_bus();
    set_dispcnt(&mut b, 0x0402);
    b.write16(0x0500_000E, 0x001F);
    b.write16(0x0600_0000, 0x0100); // map entry 1 = tile 1
    for i in 0..32 {
        b.write16(0x0600_0000 + 64 + i * 2, 0x0707);
    }
    b.write16(0x0400_0020, 0x0100);
    b.write16(0x0400_0026, 0x0100);
    b.write32(0x0400_0028, (-8i32 << 8) as u32); // start 8px left of the map
    b.write16(0x0400_000C, 0x0000); // no wrap: out-of-map = transparent
    render_line(&mut b, 0);
    assert_eq!(b.ppu.frame[0], 0x0000);
    b.write32(0x0400_0028, (-120i32 << 8) as u32); // wraps to texture x=8
    b.write16(0x0400_000C, 0x2000); // wrap bit
    render_line(&mut b, 1);
    assert_eq!(b.ppu.frame[WIDTH], 0x001F);
}

/// Minimal sprite writer: attrs for OAM entry n.
fn set_obj(b: &mut Bus, n: u32, a0: u16, a1: u16, a2: u16) {
    b.write16(0x0700_0000 + n * 8, a0);
    b.write16(0x0700_0000 + n * 8 + 2, a1);
    b.write16(0x0700_0000 + n * 8 + 4, a2);
}

/// 8x8 4bpp OBJ tile in slot `tile`, all pixels = `idx`.
fn fill_obj_tile_4bpp(b: &mut Bus, tile: u32, idx: u8) {
    let byte = idx | (idx << 4);
    for i in 0..16 {
        b.write16(0x0601_0000 + tile * 32 + i * 2, u16::from_le_bytes([byte, byte]));
    }
}

/// Affine parameter group g: PA/PB/PC/PD as 8.8 fixed point.
fn set_affine_params(b: &mut Bus, g: u32, pa: i16, pb: i16, pc: i16, pd: i16) {
    b.write16(0x0700_0000 + g * 32 + 6, pa as u16);
    b.write16(0x0700_0000 + g * 32 + 14, pb as u16);
    b.write16(0x0700_0000 + g * 32 + 22, pc as u16);
    b.write16(0x0700_0000 + g * 32 + 30, pd as u16);
}

#[test]
fn obj_renders_at_position_with_priority_over_bg() {
    let mut b = blank_bus();
    set_dispcnt(&mut b, 0x1100); // mode 0, BG0 + OBJ
    b.write16(0x0400_0008, 0x0002); // BG0 priority 2
    b.write16(0x0500_0002, 0x03E0); // BG palette 1 = green
    fill_tile_4bpp(&mut b, 0, 1, 1);
    set_entry(&mut b, 0x800, 0, 1, 0, 0x0001); // bg tile at x 8-15
    b.write16(0x0400_0008, 0x0102); // BG0: prio 2, screen base 1
    b.write16(0x0500_0202, 0x001F); // OBJ palette 1 = red
    fill_obj_tile_4bpp(&mut b, 1, 1);
    set_obj(&mut b, 0, 0x0000, 0x0008, 0x0401); // 8x8 at (8,0), prio 1, tile 1
    render_line(&mut b, 0);
    assert_eq!(b.ppu.frame[8], 0x001F); // sprite (prio 1) over bg (prio 2)
    assert_eq!(b.ppu.frame[16], 0x0000); // sprite is 8 wide
    // flip priorities: bg wins
    b.write16(0x0400_0008, 0x0100); // BG0: prio 0
    set_obj(&mut b, 0, 0x0000, 0x0008, 0x0801); // prio 2
    render_line(&mut b, 1);
    assert_eq!(b.ppu.frame[WIDTH + 8], 0x03E0);
}

#[test]
fn obj_y_wrap_disable_and_lowest_index_wins() {
    let mut b = blank_bus();
    set_dispcnt(&mut b, 0x1000); // OBJ only
    b.write16(0x0500_0202, 0x001F); // OBJ pal 1 = red
    b.write16(0x0500_0204, 0x03E0); // OBJ pal 2 = green
    fill_obj_tile_4bpp(&mut b, 1, 1);
    fill_obj_tile_4bpp(&mut b, 2, 2);
    fill_obj_tile_4bpp(&mut b, 33, 1); // 2D mapping: row 1 of the tall sprite
    // y=248 wraps to -8: 16-tall sprite shows rows 8-15 on lines 0-7
    set_obj(&mut b, 0, 0x80F8, 0x0000, 0x0001); // 8x16 (shape vertical, size 0) at (0,-8)
    render_line(&mut b, 0);
    assert_eq!(b.ppu.frame[0], 0x001F); // ly=8 -> tile slot 1 + 32 (2D stride)
    // disabled sprite renders nothing; overlapping: index 1 loses to index 0
    set_obj(&mut b, 0, 0x0000, 0x0000, 0x0001); // idx 0: red at (0,0)
    set_obj(&mut b, 1, 0x0000, 0x0000, 0x0002); // idx 1: green, same spot
    render_line(&mut b, 1);
    assert_eq!(b.ppu.frame[WIDTH], 0x001F); // lowest OAM index wins
    set_obj(&mut b, 0, 0x0200, 0x0000, 0x0001); // disable bit
    render_line(&mut b, 2);
    assert_eq!(b.ppu.frame[2 * WIDTH], 0x03E0); // idx 1 shows now
}

#[test]
fn obj_flips_and_1d_mapping() {
    let mut b = blank_bus();
    set_dispcnt(&mut b, 0x1040); // OBJ + 1D mapping
    b.write16(0x0500_0202, 0x001F);
    // tile 1: left column only; tile 2: all pixels (the 16x8 sprite's right half)
    for row in 0..8u32 {
        b.write16(0x0601_0000 + 32 + row * 4, 0x0001);
        b.write16(0x0601_0000 + 32 + row * 4 + 2, 0x0000);
    }
    fill_obj_tile_4bpp(&mut b, 2, 1);
    // 16x8 (shape horizontal, size 0), 1D: tiles 1,2 consecutive
    set_obj(&mut b, 0, 0x4000, 0x0000, 0x0001);
    render_line(&mut b, 0);
    assert_eq!(b.ppu.frame[0], 0x001F); // tile 1 left column
    assert_eq!(b.ppu.frame[1], 0x0000);
    assert_eq!(b.ppu.frame[8], 0x001F); // tile 2 solid
    // hflip the whole sprite: solid half moves left, column to x=15
    set_obj(&mut b, 0, 0x4000, 0x1000, 0x0001);
    render_line(&mut b, 1);
    assert_eq!(b.ppu.frame[WIDTH], 0x001F); // solid tile now left
    assert_eq!(b.ppu.frame[WIDTH + 15], 0x001F); // column at right edge
    assert_eq!(b.ppu.frame[WIDTH + 14], 0x0000);
}

#[test]
fn affine_obj_identity_matches_regular() {
    let mut b = blank_bus();
    set_dispcnt(&mut b, 0x1000);
    b.write16(0x0500_0202, 0x001F);
    fill_obj_tile_4bpp(&mut b, 1, 1);
    set_affine_params(&mut b, 0, 0x100, 0, 0, 0x100);
    set_obj(&mut b, 0, 0x0100, 0x0000, 0x0001); // affine, group 0, 8x8 at (0,0)
    render_line(&mut b, 3);
    assert_eq!(b.ppu.frame[3 * WIDTH], 0x001F);
    assert_eq!(b.ppu.frame[3 * WIDTH + 7], 0x001F);
    assert_eq!(b.ppu.frame[3 * WIDTH + 8], 0x0000);
}

#[test]
fn affine_obj_half_scale_shrinks_with_double_size_canvas() {
    let mut b = blank_bus();
    set_dispcnt(&mut b, 0x1000);
    b.write16(0x0500_0202, 0x001F);
    fill_obj_tile_4bpp(&mut b, 1, 1);
    set_affine_params(&mut b, 0, 0x200, 0, 0, 0x200); // PA=2.0: half size on screen
    // affine + double (bit9): 8x8 sprite on a 16x16 canvas at (0,0)
    set_obj(&mut b, 0, 0x0300, 0x0000, 0x0001);
    render_line(&mut b, 8); // canvas centre row (ly=8, dy=0)
    // tx = 2*(lx-8) + 4, visible while tx in 0..8 -> canvas x 6..=9
    assert_eq!(b.ppu.frame[8 * WIDTH + 6], 0x001F);
    assert_eq!(b.ppu.frame[8 * WIDTH + 9], 0x001F);
    assert_eq!(b.ppu.frame[8 * WIDTH + 5], 0x0000); // tx = -2: outside
    assert_eq!(b.ppu.frame[8 * WIDTH + 10], 0x0000); // tx = 8: outside
}
