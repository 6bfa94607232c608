use termboy::gb::cartridge::{CartError, Cartridge};
use termboy::gb::joypad::Joypad;
use termboy::gb::mbc::{Mbc1, Mbc5};
use termboy::gb::mbc3::Mbc3;
use termboy::gb::registers::{Registers, C, H, N, Z};
use termboy::gb::serial::Serial;
use termboy::gb::timer::Timer;
use termboy::machine::Buttons;
use termboy::state::{Reader, StateError, Writer};

// ---------------------------------------------------------------- registers

#[test]
fn pairs_compose_and_decompose() {
    let mut r = Registers::new_post_boot();
    r.set_bc(0x1234);
    assert_eq!(r.b, 0x12);
    assert_eq!(r.c, 0x34);
    assert_eq!(r.bc(), 0x1234);
}

#[test]
fn f_low_nibble_always_zero() {
    let mut r = Registers::new_post_boot();
    r.set_af(0xABCD);
    assert_eq!(r.f, 0xC0);
}

#[test]
fn post_boot_state_matches_dmg() {
    let r = Registers::new_post_boot();
    assert_eq!(r.af(), 0x01B0);
    assert_eq!(r.bc(), 0x0013);
    assert_eq!(r.de(), 0x00D8);
    assert_eq!(r.hl(), 0x014D);
    assert_eq!(r.sp, 0xFFFE);
    assert_eq!(r.pc, 0x0100);
}

#[test]
fn set_flag_masks_low_nibble_and_clears() {
    let mut r = Registers::new_post_boot();
    r.f = 0xFF;
    r.set_flag(Z, false);
    assert_eq!(r.f, 0x70);
    r.set_flag(C, true);
    assert!(r.flag(C) && r.flag(N) && r.flag(H) && !r.flag(Z));
}

// ---------------------------------------------------------------- joypad

#[test]
fn nothing_selected_reads_all_ones() {
    let mut j = Joypad::default();
    j.set_buttons(Buttons::A().with(Buttons::DOWN()));
    j.write(0x30);
    assert_eq!(j.read(), 0xFF);
}

#[test]
fn direction_row_active_low() {
    let mut j = Joypad::default();
    j.set_buttons(Buttons::RIGHT());
    j.write(0x20);
    assert_eq!(j.read(), 0xEE);
}

#[test]
fn action_row_active_low() {
    let mut j = Joypad::default();
    j.set_buttons(Buttons::A().with(Buttons::START()));
    j.write(0x10);
    assert_eq!(j.read(), 0xD6);
}

#[test]
fn both_rows_combine() {
    let mut j = Joypad::default();
    j.set_buttons(Buttons::RIGHT().with(Buttons::A()));
    j.write(0x00);
    assert_eq!(j.read() & 0x0F, 0x0E);
}

#[test]
fn irq_only_on_new_press() {
    let mut j = Joypad::default();
    assert!(j.set_buttons(Buttons::A()));
    assert!(!j.set_buttons(Buttons::A()));
    assert!(!j.set_buttons(Buttons::default()));
    assert!(j.set_buttons(Buttons::A()));
}

// ---------------------------------------------------------------- serial

#[test]
fn write_to_sc_with_start_bit_captures_sb() {
    let mut s = Serial::default();
    s.write_sb(b'H');
    s.write_sc(0x81);
    s.write_sb(b'i');
    s.write_sc(0x81);
    s.write_sc(0x01);
    assert_eq!(s.output(), b"Hi");
    assert_eq!(s.read_sc(), 0x7E);
    assert_eq!(s.read_sb(), b'i');
}

// ---------------------------------------------------------------- timer

fn tick_n(t: &mut Timer, n: u32) -> bool {
    let mut irq = false;
    for _ in 0..n {
        irq |= t.tick();
    }
    irq
}

#[test]
fn div_increments_every_256_tcycles() {
    let mut t = Timer::default();
    tick_n(&mut t, 255);
    assert_eq!(t.read_div(), 0);
    tick_n(&mut t, 1);
    assert_eq!(t.read_div(), 1);
}

#[test]
fn div_write_resets_counter() {
    let mut t = Timer::default();
    tick_n(&mut t, 300);
    t.write_div();
    assert_eq!(t.read_div(), 0);
}

#[test]
fn tima_ticks_at_selected_rate() {
    let mut t = Timer::default();
    t.write_tac(0b101);
    tick_n(&mut t, 16);
    assert_eq!(t.tima, 1);
    tick_n(&mut t, 16 * 9);
    assert_eq!(t.tima, 10);
}

#[test]
fn tima_overflow_reloads_from_tma_after_4_cycles_and_raises_irq() {
    let mut t = Timer::default();
    t.write_tac(0b101);
    t.tma = 0xAB;
    t.tima = 0xFF;
    tick_n(&mut t, 16);
    assert_eq!(t.tima, 0);
    let irq = tick_n(&mut t, 4);
    assert!(irq);
    assert_eq!(t.tima, 0xAB);
}

#[test]
fn disabled_timer_does_not_tick_tima() {
    let mut t = Timer::default();
    t.write_tac(0b001);
    tick_n(&mut t, 256);
    assert_eq!(t.tima, 0);
}

#[test]
fn tima_write_during_reload_cancels_it() {
    let mut t = Timer::default();
    t.write_tac(0b101);
    t.tma = 0x55;
    t.tima = 0xFF;
    tick_n(&mut t, 16);
    t.write_tima(0x10);
    assert!(!tick_n(&mut t, 4));
    assert_eq!(t.tima, 0x10);
    assert_eq!(t.read_tac(), 0xFD);
}

// ---------------------------------------------------------------- MBC1

fn mbc1(ram_bytes: usize, battery: bool) -> Mbc1 {
    let mut rom = vec![0u8; 64 * 0x4000];
    for bank in 0..64 {
        rom[bank * 0x4000] = bank as u8;
    }
    Mbc1::new(rom, ram_bytes, battery)
}

#[test]
fn bank_zero_translates_to_one() {
    let mut m = mbc1(0, false);
    m.write_rom(0x2000, 0x00);
    assert_eq!(m.read_rom(0x4000), 1);
    m.write_rom(0x2000, 0x1F);
    assert_eq!(m.read_rom(0x4000), 0x1F);
}

#[test]
fn bank2_extends_rom_bank_in_switchable_region() {
    let mut m = mbc1(0, false);
    m.write_rom(0x2000, 0x01);
    m.write_rom(0x4000, 0x01);
    assert_eq!(m.read_rom(0x4000), 0x21);
    m.write_rom(0x2000, 0x20);
    assert_eq!(m.read_rom(0x4000), 0x21);
}

#[test]
fn mode1_remaps_fixed_region() {
    let mut m = mbc1(0, false);
    m.write_rom(0x4000, 0x01);
    assert_eq!(m.read_rom(0x0000), 0);
    m.write_rom(0x6000, 0x01);
    assert_eq!(m.read_rom(0x0000), 0x20);
}

#[test]
fn ram_requires_enable_and_banks_in_mode1() {
    let mut m = mbc1(0x8000, true);
    m.write_ram(0xA000, 0x55);
    assert_eq!(m.read_ram(0xA000), 0xFF);
    m.write_rom(0x0000, 0x0A);
    m.write_ram(0xA000, 0x55);
    assert_eq!(m.read_ram(0xA000), 0x55);
    m.write_rom(0x6000, 0x01);
    m.write_rom(0x4000, 0x02);
    assert_eq!(m.read_ram(0xA000), 0x00);
    m.write_ram(0xA000, 0xAA);
    m.write_rom(0x4000, 0x00);
    assert_eq!(m.read_ram(0xA000), 0x55);
}

#[test]
fn battery_save_roundtrip() {
    let mut m = mbc1(0x2000, true);
    m.write_rom(0x0000, 0x0A);
    m.write_ram(0xA123, 0x77);
    let saved = m.save(0).expect("battery cart saves");
    let mut m2 = mbc1(0x2000, true);
    m2.load(&saved, 0);
    m2.write_rom(0x0000, 0x0A);
    assert_eq!(m2.read_ram(0xA123), 0x77);
    assert!(mbc1(0x2000, false).save(0).is_none());
}

// ---------------------------------------------------------------- MBC3

fn mbc3() -> Mbc3 {
    let mut rom = vec![0u8; 128 * 0x4000];
    for bank in 0..128 {
        rom[bank * 0x4000] = bank as u8;
    }
    Mbc3::new(rom, 0x8000, true, false)
}

#[test]
fn seven_bit_rom_banking_zero_becomes_one() {
    let mut m = mbc3();
    m.write_rom(0x2000, 0x00);
    assert_eq!(m.read_rom(0x4000), 1);
    m.write_rom(0x2000, 0x7F);
    assert_eq!(m.read_rom(0x4000), 0x7F);
    assert_eq!(m.read_rom(0x0000), 0);
}

#[test]
fn ram_banks_switch_directly() {
    let mut m = mbc3();
    m.write_rom(0x0000, 0x0A);
    m.write_rom(0x4000, 0x00);
    m.write_ram(0xA000, 0x11);
    m.write_rom(0x4000, 0x03);
    m.write_ram(0xA000, 0x33);
    m.write_rom(0x4000, 0x00);
    assert_eq!(m.read_ram(0xA000), 0x11);
    m.write_rom(0x4000, 0x03);
    assert_eq!(m.read_ram(0xA000), 0x33);
}

#[test]
fn disabled_ram_is_open_bus() {
    let mut m = mbc3();
    m.write_ram(0xA000, 0x55);
    assert_eq!(m.read_ram(0xA000), 0xFF);
}

#[test]
fn battery_save_roundtrip_without_rtc() {
    let mut m = mbc3();
    m.write_rom(0x0000, 0x0A);
    m.write_ram(0xA000, 0x99);
    let saved = m.save(1000).unwrap();
    assert_eq!(saved.len(), 0x8000);
    let mut m2 = mbc3();
    m2.load(&saved, 2000);
    m2.write_rom(0x0000, 0x0A);
    assert_eq!(m2.read_ram(0xA000), 0x99);
}

const SEC: u32 = 4_194_304;

fn rtc_mbc() -> Mbc3 {
    let mut m = Mbc3::new(vec![0u8; 0x8000], 0x2000, true, true);
    m.write_rom(0x0000, 0x0A);
    m
}

fn latch(m: &mut Mbc3) {
    m.write_rom(0x6000, 0x00);
    m.write_rom(0x6000, 0x01);
}

fn read_rtc(m: &mut Mbc3, reg: u8) -> u8 {
    m.write_rom(0x4000, reg);
    m.read_ram(0xA000)
}

#[test]
fn rtc_counts_emulated_seconds_with_cascade() {
    let mut m = rtc_mbc();
    m.write_rom(0x4000, 0x08);
    m.write_ram(0xA000, 59);
    m.write_rom(0x4000, 0x09);
    m.write_ram(0xA000, 59);
    m.write_rom(0x4000, 0x0A);
    m.write_ram(0xA000, 23);
    for _ in 0..32 {
        m.tick(SEC / 32);
    }
    latch(&mut m);
    assert_eq!(read_rtc(&mut m, 0x08), 0);
    assert_eq!(read_rtc(&mut m, 0x09), 0);
    assert_eq!(read_rtc(&mut m, 0x0A), 0);
    assert_eq!(read_rtc(&mut m, 0x0B), 1);
}

#[test]
fn rtc_latch_freezes_reads_until_next_latch() {
    let mut m = rtc_mbc();
    latch(&mut m);
    m.tick(SEC * 5);
    assert_eq!(read_rtc(&mut m, 0x08), 0);
    latch(&mut m);
    assert_eq!(read_rtc(&mut m, 0x08), 5);
}

#[test]
fn rtc_halt_freezes_clock() {
    let mut m = rtc_mbc();
    m.write_rom(0x4000, 0x0C);
    m.write_ram(0xA000, 0x40);
    m.tick(SEC * 10);
    m.write_rom(0x4000, 0x0C);
    m.write_ram(0xA000, 0x00);
    m.tick(SEC * 2);
    latch(&mut m);
    assert_eq!(read_rtc(&mut m, 0x08), 2);
}

#[test]
fn rtc_day_overflow_sets_sticky_carry() {
    let mut m = rtc_mbc();
    m.write_rom(0x4000, 0x0B);
    m.write_ram(0xA000, 0xFF);
    m.write_rom(0x4000, 0x0C);
    m.write_ram(0xA000, 0x01);
    m.write_rom(0x4000, 0x0A);
    m.write_ram(0xA000, 23);
    m.write_rom(0x4000, 0x09);
    m.write_ram(0xA000, 59);
    m.write_rom(0x4000, 0x08);
    m.write_ram(0xA000, 59);
    m.tick(SEC);
    latch(&mut m);
    assert_eq!(read_rtc(&mut m, 0x0B), 0);
    assert_eq!(read_rtc(&mut m, 0x0C) & 0x80, 0x80);
}

#[test]
fn rtc_save_load_fast_forwards_elapsed_wall_time() {
    let mut m = rtc_mbc();
    m.tick(SEC * 10);
    let saved = m.save(1_000_000).unwrap();
    assert_eq!(saved.len(), 0x2000 + 5 + 8);
    let mut m2 = rtc_mbc();
    m2.load(&saved, 1_000_000 + 3600);
    latch(&mut m2);
    assert_eq!(read_rtc(&mut m2, 0x08), 10);
    assert_eq!(read_rtc(&mut m2, 0x09), 0);
    assert_eq!(read_rtc(&mut m2, 0x0A), 1);
}

#[test]
fn rtc_halted_save_does_not_fast_forward() {
    let mut m = rtc_mbc();
    m.tick(SEC * 7);
    m.write_rom(0x4000, 0x0C);
    m.write_ram(0xA000, 0x40);
    let saved = m.save(1_000_000).unwrap();
    let mut m2 = rtc_mbc();
    m2.load(&saved, 2_000_000);
    latch(&mut m2);
    assert_eq!(read_rtc(&mut m2, 0x08), 7);
}

#[test]
fn latch_needs_zero_then_one() {
    let mut m = rtc_mbc();
    m.tick(SEC * 3);
    m.write_rom(0x6000, 0x01);
    assert_eq!(read_rtc(&mut m, 0x08), 0);
    m.write_rom(0x6000, 0x00);
    m.write_rom(0x6000, 0x02);
    m.write_rom(0x6000, 0x01);
    assert_eq!(read_rtc(&mut m, 0x08), 0);
    latch(&mut m);
    assert_eq!(read_rtc(&mut m, 0x08), 3);
}

// ---------------------------------------------------------------- MBC5

fn mbc5() -> Mbc5 {
    let mut rom = vec![0u8; 0x80_0000];
    for bank in 0..512usize {
        rom[bank * 0x4000] = (bank & 0xFF) as u8;
        rom[bank * 0x4000 + 1] = (bank >> 8) as u8;
    }
    Mbc5::new(rom, 0x8000, true)
}

#[test]
fn bank_zero_is_mappable() {
    let mut m = mbc5();
    m.write_rom(0x2000, 0x00);
    assert_eq!(m.read_rom(0x4000), 0);
    assert_eq!(m.read_rom(0x4001), 0);
}

#[test]
fn nine_bit_banking() {
    let mut m = mbc5();
    m.write_rom(0x2000, 0x34);
    m.write_rom(0x3000, 0x01);
    assert_eq!(m.read_rom(0x4000), 0x34);
    assert_eq!(m.read_rom(0x4001), 0x01);
}

#[test]
fn ram_banks_and_battery() {
    let mut m = mbc5();
    m.write_rom(0x0000, 0x0A);
    m.write_rom(0x4000, 0x00);
    m.write_ram(0xA000, 0x11);
    m.write_rom(0x4000, 0x03);
    m.write_ram(0xA000, 0x33);
    m.write_rom(0x4000, 0x00);
    assert_eq!(m.read_ram(0xA000), 0x11);
    let saved = m.save(0).unwrap();
    let mut m2 = mbc5();
    m2.load(&saved, 0);
    m2.write_rom(0x0000, 0x0A);
    m2.write_rom(0x4000, 0x03);
    assert_eq!(m2.read_ram(0xA000), 0x33);
}

// ---------------------------------------------------------------- cartridge

fn rom_with_mapper(byte: u8) -> Vec<u8> {
    let mut rom = vec![0u8; 0x8000];
    rom[0x147] = byte;
    rom
}

#[test]
fn rom_only_reads_back_rom_and_ignores_writes() {
    let mut rom = rom_with_mapper(0x00);
    rom[0x1234] = 0xAB;
    let mut cart = Cartridge::new(rom).unwrap();
    assert_eq!(cart.read_rom(0x1234), 0xAB);
    cart.write_rom(0x1234, 0xFF);
    assert_eq!(cart.read_rom(0x1234), 0xAB);
    assert_eq!(cart.read_ram(0xA000), 0xFF);
    assert!(cart.save(0).is_none());
}

#[test]
fn unsupported_mapper_is_a_named_error() {
    let err = Cartridge::new(rom_with_mapper(0x05)).err().unwrap();
    assert!(err.message().contains("MBC2"));
}

#[test]
fn rom_ram_type_08_has_unbanked_ram() {
    let mut rom = rom_with_mapper(0x08);
    rom[0x149] = 0x02;
    let mut cart = Cartridge::new(rom).unwrap();
    cart.write_ram(0xA042, 0x5A);
    assert_eq!(cart.read_ram(0xA042), 0x5A);
    assert!(cart.save(0).is_none());
}

#[test]
fn rom_ram_battery_type_09_saves() {
    let mut rom = rom_with_mapper(0x09);
    rom[0x149] = 0x02;
    let mut cart = Cartridge::new(rom).unwrap();
    cart.write_ram(0xA000, 0x77);
    let saved = cart.save(0).expect("battery");
    let mut rom2 = rom_with_mapper(0x09);
    rom2[0x149] = 0x02;
    let mut cart2 = Cartridge::new(rom2).unwrap();
    cart2.load(&saved, 0);
    assert_eq!(cart2.read_ram(0xA000), 0x77);
}

#[test]
fn oversized_mapperless_rom_is_a_bad_dump_error() {
    let mut rom = vec![0u8; 0x10000];
    rom[0x147] = 0x08;
    let err = Cartridge::new(rom).err().unwrap();
    assert!(err.message().contains("bad dump"));
    assert_eq!(err, CartError::BadDump { code: 0x08, size_kb: 64 });
}

#[test]
fn cgb_flag_from_header() {
    let mut rom = rom_with_mapper(0x00);
    assert!(!Cartridge::new(rom.clone()).unwrap().cgb());
    rom[0x143] = 0x80;
    assert!(Cartridge::new(rom.clone()).unwrap().cgb());
    rom[0x143] = 0xC0;
    assert!(Cartridge::new(rom).unwrap().cgb());
}

#[test]
fn truncated_rom_is_an_error() {
    assert!(Cartridge::new(vec![0u8; 0x100]).is_err());
}

#[test]
fn unknown_mapper_is_named_generically() {
    let err = Cartridge::new(rom_with_mapper(0x20)).err().unwrap();
    assert_eq!(err, CartError::Unsupported { code: 0x20, name: "this mapper" });
    assert_eq!(Cartridge::new(vec![0u8; 0x14F]).err().unwrap(), CartError::TooSmall);
}

#[test]
fn cartridge_dispatches_to_mbc5() {
    let mut rom = vec![0u8; 4 * 0x4000];
    rom[0x147] = 0x1B;
    rom[0x149] = 0x03;
    rom[2 * 0x4000] = 0x42;
    let mut cart = Cartridge::new(rom).unwrap();
    cart.write_rom(0x2000, 2);
    assert_eq!(cart.read_rom(0x4000), 0x42);
    cart.write_rom(0x0000, 0x0A);
    cart.write_ram(0xA000, 0x99);
    assert_eq!(cart.save(0).unwrap()[0], 0x99);
}

// ---------------------------------------------------------------- save states

#[test]
fn mbc1_state_round_trips() {
    let mut m = mbc1(0x2000, true);
    m.write_rom(0x0000, 0x0A);
    m.write_ram(0xA010, 0x5A);
    m.write_rom(0x2000, 0x05);
    m.write_rom(0x4000, 0x02);
    m.write_rom(0x6000, 0x01);
    let mut w = Writer::new();
    m.serialize(&mut w);
    assert_eq!(w.buf.len(), 0x2000 + 4);
    assert_eq!(&w.buf[0x2000..], &[1, 0x05, 0x02, 1]);
    let mut back = mbc1(0x2000, true);
    let mut r = Reader::new(&w.buf);
    assert_eq!(back.deserialize(&mut r), Ok(()));
    assert_eq!(back.read_rom(0x4000), m.read_rom(0x4000));
    assert_eq!(back.read_ram(0xA010), 0x5A);
    let mut short = Reader::new(&w.buf[..0x2003]);
    assert_eq!(back.deserialize(&mut short), Err(StateError::Truncated));
}

#[test]
fn mbc5_state_round_trips() {
    let mut m = mbc5();
    m.write_rom(0x0000, 0x0A);
    m.write_rom(0x2000, 0x34);
    m.write_rom(0x3000, 0x01);
    m.write_rom(0x4000, 0x03);
    m.write_ram(0xA000, 0x77);
    let mut w = Writer::new();
    m.serialize(&mut w);
    assert_eq!(&w.buf[0x8000..], &[1, 0x34, 0x01, 0x03]);
    let mut back = mbc5();
    let mut r = Reader::new(&w.buf);
    assert_eq!(back.deserialize(&mut r), Ok(()));
    assert_eq!(back.read_rom(0x4000), 0x34);
    assert_eq!(back.read_rom(0x4001), 0x01);
    assert_eq!(back.read_ram(0xA000), 0x77);
}

#[test]
fn joypad_state_keeps_the_select_lines() {
    let mut j = Joypad::new();
    j.write(0x10);
    let mut w = Writer::new();
    j.serialize(&mut w);
    let mut back = Joypad::new();
    let mut r = Reader::new(&w.buf);
    assert_eq!(back.deserialize(&mut r), Ok(()));
    assert_eq!(back.read(), j.read());
    let mut empty = Reader::new(&[]);
    assert_eq!(back.deserialize(&mut empty), Err(StateError::Truncated));
}

#[test]
fn cartridge_error_messages_are_exact() {
    assert_eq!(
        CartError::TooSmall.message(),
        "ROM is too small to contain a cartridge header"
    );
    let err = Cartridge::new(rom_with_mapper(0x05)).err().unwrap();
    assert_eq!(err.message(), "MBC2 (header type 0x05) is not yet supported");
    let bad = CartError::BadDump { code: 0x0A, size_kb: 1024 };
    assert_eq!(
        bad.message(),
        "header type 0x0A declares no mapper, but the ROM is 1024 KB \u{2014} impossible on real \
         hardware; this is likely a bad dump, try a clean ROM"
    );
}
