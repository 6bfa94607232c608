use termboy::gba::ppu::bgr555_to_rgb;
use termboy::gba::system::{FrameStep, GbaCore, RomError, CLOCK_HZ, CYCLES_PER_FRAME};
use termboy::machine::{Buttons, Rgb};

fn pixel_rom() -> Vec<u8> {
    let prog: [u32; 8] = [
        0xE3A0_0003, // MOV r0, #3        (mode 3)
        0xE380_0B01, // ORR r0, r0, #0x400 (BG2 enable)
        0xE3A0_1301, // MOV r1, #0x04000000
        0xE581_0000, // STR r0, [r1]      (DISPCNT)
        0xE3A0_2406, // MOV r2, #0x06000000
        0xE3A0_301F, // MOV r3, #0x1F     (red)
        0xE1C2_30B0, // STRH r3, [r2]     (pixel 0,0)
        0xEAFF_FFFE, // b $
    ];
    let mut rom = vec![0u8; 0x200];
    for (i, op) in prog.iter().enumerate() {
        rom[i * 4..i * 4 + 4].copy_from_slice(&op.to_le_bytes());
    }
    rom
}

#[test]
fn rejects_undersized_rom() {
    assert!(GbaCore::new(vec![0u8; 16]).is_err());
    assert_eq!(GbaCore::new(vec![0u8; 16]).err(), Some(RomError::TooSmall));
    assert_eq!(
        RomError::TooSmall.message(),
        "ROM is too small to contain a GBA cartridge header"
    );
}

#[test]
fn flash_save_round_trips_through_save_and_load_ram() {
    // a ROM that declares 128KB flash so detection picks Flash(M1)
    let mut rom = pixel_rom();
    rom.resize(0x400, 0);
    rom[0x200..0x209].copy_from_slice(b"FLASH1M_V");

    let mut core = GbaCore::new(rom.clone()).unwrap();
    // JEDEC program of 0x5A at flash offset 0x40: AA/55/A0 then the byte
    core.debug_write8(0x0E00_5555, 0xAA);
    core.debug_write8(0x0E00_2AAA, 0x55);
    core.debug_write8(0x0E00_5555, 0xA0);
    core.debug_write8(0x0E00_0040, 0x5A);
    let saved = core.save_ram().expect("flash cart has a save");
    assert_eq!(saved.len(), 0x2_0000);
    assert_eq!(saved[0x40], 0x5A);

    let mut fresh = GbaCore::new(rom).unwrap();
    fresh.load_ram(&saved);
    assert_eq!(fresh.debug_read8(0x0E00_0040), 0x5A);
}

#[test]
fn cart_without_save_signature_has_no_save_ram() {
    let core = GbaCore::new(pixel_rom()).unwrap();
    assert!(core.save_ram().is_none());
}

#[test]
fn debug_dma3_copies_halfwords() {
    let mut core = GbaCore::new(pixel_rom()).unwrap();
    core.debug_write16(0x0200_0000, 0x1234);
    core.debug_write16(0x0200_0002, 0x5678);
    core.debug_dma3(0x0200_0000, 0x0300_0000, 2);
    assert_eq!(core.debug_read16(0x0300_0000), 0x1234);
    assert_eq!(core.debug_read16(0x0300_0002), 0x5678);
    assert!(core.cycles() < CYCLES_PER_FRAME);
}

#[test]
fn frame_and_clock_constants() {
    assert_eq!(CYCLES_PER_FRAME, 1232 * 228);
    assert_eq!(CLOCK_HZ, 16_777_216);
}

/// ROM whose entry instruction is `b .` (0xEAFFFFFE), so the CPU spins
/// forever without touching display registers.
fn spinning_core() -> GbaCore {
    let mut rom = vec![0u8; 0xC0];
    rom[0..4].copy_from_slice(&0xEAFF_FFFEu32.to_le_bytes());
    GbaCore::new(rom).unwrap()
}

#[test]
fn run_frame_applies_correction_to_the_backdrop() {
    let mut core = spinning_core();
    core.debug_write16(0x0400_0000, 0x0000); // DISPCNT: no forced blank, no layers
    core.debug_write16(0x0500_0000, 0x001F); // backdrop palette[0] = red

    assert_eq!(core.run_frame(Buttons::default(), None), Ok(FrameStep::Done));
    let raw = core.frame.pixels[0];
    assert_eq!(raw, bgr555_to_rgb(0x001F)); // raw expand of red

    // the colour-correction table: pure red comes out as Rgb(232, 53, 111)
    let mut lut: Vec<Rgb> = (0..32768u32).map(|c| bgr555_to_rgb(c as u16)).collect();
    lut[0x001F] = Rgb(232, 53, 111);
    assert_eq!(core.run_frame(Buttons::default(), Some(&lut)), Ok(FrameStep::Done));
    let corrected = core.frame.pixels[0];
    assert_eq!(corrected, Rgb(232, 53, 111));
    assert_ne!(corrected, raw);
}

#[test]
fn run_frame_stops_when_the_frame_is_ready() {
    let mut core = spinning_core();
    let start = core.cycles();
    assert_eq!(core.run_frame(Buttons::default(), None), Ok(FrameStep::Done));
    assert!(core.cpu.bus.ppu.frame_ready);
    assert!(core.cycles() > start);
    assert!(core.cycles() <= start + CYCLES_PER_FRAME);
    // every pixel is the (black) backdrop of a blank screen
    assert!(core.frame.pixels.iter().all(|&p| p == core.frame.pixels[0]));
}

#[test]
fn run_frame_latches_the_buttons() {
    let mut core = spinning_core();
    core.run_frame(Buttons(Buttons::A().0 | Buttons::START().0), None).unwrap();
    // KEYINPUT is active low: A is bit 0, START bit 3
    assert_eq!(core.debug_read16(0x0400_0130), 0x03FF & !0x0009);
}

#[test]
fn run_frame_hands_midi_key_to_freq_to_the_host_and_resumes() {
    let mut rom = vec![0u8; 0xC0];
    rom[0..4].copy_from_slice(&0xEF1F_0000u32.to_le_bytes()); // SWI MidiKey2Freq
    rom[4..8].copy_from_slice(&0xEAFF_FFFEu32.to_le_bytes()); // b .
    let mut core = GbaCore::new(rom).unwrap();
    core.debug_write16(0x0200_0004, 0x6D80); // WaveData frequency 880000 = 0x000D_6D80
    core.debug_write16(0x0200_0006, 0x000D);
    core.cpu.regs.set(0, 0x0200_0000);
    core.cpu.regs.set(1, 180);
    core.cpu.regs.set(2, 0);
    let start = core.cycles();
    let step = core.run_frame(Buttons::default(), None).unwrap();
    let cap = start + CYCLES_PER_FRAME;
    assert_eq!(step, FrameStep::KeyToFreq { base: 880_000, key: 180, fine: 0, cap });
    core.cpu.regs.set(0, 880_000); // what the host computes for key 180
    assert_eq!(core.resume_frame(cap, None), Ok(FrameStep::Done));
    assert_eq!(core.cpu.regs.get(0), 880_000);
    assert!(core.cycles() <= cap);
}
