use termboy::gb::cartridge::CartError;
use termboy::gb::{GameBoy, CYCLES_PER_FRAME};
use termboy::gba::apu::Apu;
use termboy::machine::Buttons;

// ---------------------------------------------------------------- Game Boy

#[test]
fn run_frame_advances_one_frame_of_cycles() {
    let mut rom = vec![0u8; 0x8000];
    rom[0x147] = 0x00;
    rom[0x100] = 0x18;
    rom[0x101] = 0xFE;
    let mut gb = GameBoy::new(rom).unwrap();
    gb.run_frame(Buttons::default()).unwrap();
    assert!(gb.cpu.bus.cycles >= CYCLES_PER_FRAME);
    assert!(gb.cpu.bus.cycles < CYCLES_PER_FRAME + 16); // overshoot < 1 instruction
}

#[test]
fn run_frame_stops_at_an_invalid_opcode() {
    let mut rom = vec![0u8; 0x8000];
    rom[0x100] = 0xD3; // not an instruction
    let mut gb = GameBoy::new(rom).unwrap();
    assert!(gb.run_frame(Buttons::default()).is_err());
}

#[test]
fn banked_rom_shorter_than_a_bank_is_refused() {
    let mut rom = vec![0u8; 0x200];
    rom[0x147] = 0x01; // MBC1
    assert_eq!(GameBoy::new(rom).err(), Some(CartError::TooSmall));
}

#[test]
fn work_ram_reads_back_through_the_cpu_and_its_echo() {
    let mut rom = vec![0u8; 0x8000];
    rom[0x147] = 0x00;
    let mut gb = GameBoy::new(rom).unwrap();
    gb.cpu.write8(0xC123, 0x5A);
    assert_eq!(gb.cpu.read8(0xC123), 0x5A);
    assert_eq!(gb.cpu.read8(0xE123), 0x5A); // echo RAM mirrors work RAM
    gb.cpu.write8(0xFF90, 0x77); // high RAM
    assert_eq!(gb.cpu.read8(0xFF90), 0x77);
}

#[test]
fn battery_ram_survives_save_and_load() {
    let mut rom = vec![0u8; 0x8000];
    rom[0x147] = 0x03; // MBC1 + RAM + battery
    rom[0x149] = 0x02; // 8 KiB
    let mut gb = GameBoy::new(rom.clone()).unwrap();
    gb.cpu.write8(0x0000, 0x0A); // RAM enable
    gb.cpu.write8(0xA010, 0x42);
    let saved = gb.save_ram(1000).expect("battery cart has a save");
    let mut fresh = GameBoy::new(rom).unwrap();
    assert!(fresh.load_ram_at(&saved, 2000));
    fresh.cpu.write8(0x0000, 0x0A);
    assert_eq!(fresh.cpu.read8(0xA010), 0x42);
    assert!(!fresh.load_ram_at(&saved, u64::MAX));
}

// ---------------------------------------------------------------- GBA sound

fn apu() -> Apu {
    let mut a = Apu::new();
    a.write(0x84, 0x80); // master enable
    a.set_sample_rate(48_000);
    a
}

#[test]
fn pulse_length_expires() {
    let mut a = apu();
    a.write(0x68, 0x3E); // ch2 length=2, duty 0
    a.write(0x69, 0xF0); // full vol
    a.write(0x6D, 0xC0); // trigger + length enable
    assert_eq!(a.read(0x84) & 0x02, 0x02);
    a.tick(4 * 8192 * 4); // 4 sequencer steps (x4 prescaler)
    assert_eq!(a.read(0x84) & 0x02, 0x00);
}

#[test]
fn produces_samples_at_rate() {
    let mut a = apu();
    a.tick(16_777_216 / 60);
    let n = a.samples.len();
    assert!((795..=805).contains(&n), "got {n}");
}

#[test]
fn master_off_silences() {
    let mut a = apu();
    a.write(0x68, 0x00);
    a.write(0x69, 0xF0);
    a.write(0x6D, 0x80); // trigger ch2
    a.write(0x84, 0x00); // master off
    a.tick(8192 * 4);
    assert!(a.samples.iter().all(|&(l, r)| l == 0 && r == 0));
}

#[test]
fn fifo_outputs_on_selected_timer_overflow() {
    let mut a = apu();
    a.write(0x82, 0x02); // PSG 100% (keeps scaling sane)
    a.write(0x83, 0x0B); // A enabled L+R (bits 8,9), timer0 (bit10=0)
    a.fifo_push(0, 0x40); // +64
    a.on_timer_overflow(0, 1);
    a.tick(1000);
    assert!(a.samples.iter().any(|&(l, _)| l > 0));
}

#[test]
fn fifo_ignores_the_other_timer() {
    let mut a = apu();
    a.write(0x83, 0x0B); // timer 0 drives A
    a.fifo_push(0, 0x40);
    a.on_timer_overflow(1, 5); // wrong timer
    assert_eq!(a.fifo_a.bytes.len(), 1); // not consumed
}
