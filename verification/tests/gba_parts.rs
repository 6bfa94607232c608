use termboy::gba::eeprom::Eeprom;
use termboy::gba::flash::{Flash, FlashKind};
use termboy::gba::keypad::keyinput;
use termboy::gba::ppu::bgr555_to_rgb;
use termboy::gba::psr::{Mode, Psr, N, T, Z};
use termboy::gba::registers::Registers;
use termboy::gba::save::{Save, SRAM_SIZE};
use termboy::gba::timing::{access_cycles, Width};
use termboy::machine::{Buttons, Rgb};
use termboy::state::{Reader, Writer};

// ---------------------------------------------------------------- psr

#[test]
fn mode_bits_roundtrip() {
    assert_eq!(Mode::from_bits(0x10), Mode::User);
    assert_eq!(Mode::from_bits(0xFF), Mode::System); // only low 5 bits count
    assert_eq!(Mode::Supervisor.bits(), 0x13);
}

#[test]
fn flags_set_and_clear() {
    let mut p = Psr(0);
    p.set_flag(N, true);
    p.set_flag(T, true);
    assert!(p.flag(N) && p.thumb() && !p.flag(Z));
    p.set_flag(N, false);
    assert!(!p.flag(N) && p.thumb());
}

#[test]
#[should_panic]
fn invalid_mode_panics() {
    Mode::from_bits(0x00);
}

// ---------------------------------------------------------------- registers

#[test]
fn post_bios_state() {
    let r = Registers::new_post_bios();
    assert_eq!(r.cpsr.mode(), Mode::System);
    assert!(!r.cpsr.thumb());
    assert_eq!(r.get(13), 0x0300_7F00);
}

#[test]
fn mode_switch_banks_r13_r14() {
    let mut r = Registers::new_post_bios();
    r.set(13, 0x1111);
    r.set(14, 0x2222);
    r.switch_mode(Mode::Irq);
    assert_eq!(r.cpsr.mode(), Mode::Irq);
    assert_eq!(r.get(13), 0x0300_7FA0); // IRQ bank, pre-set by the BIOS
    r.set(14, 0x3333);
    r.switch_mode(Mode::System);
    assert_eq!(r.get(13), 0x1111);
    assert_eq!(r.get(14), 0x2222);
    r.switch_mode(Mode::Irq);
    assert_eq!(r.get(14), 0x3333); // IRQ bank survived the round trip
}

#[test]
fn fiq_banks_r8_to_r14_others_do_not() {
    let mut r = Registers::new_post_bios();
    r.set(8, 0xAAAA);
    r.set(12, 0xBBBB);
    r.switch_mode(Mode::Fiq);
    r.set(8, 0xCCCC);
    assert_ne!(r.get(8), 0xAAAA);
    r.switch_mode(Mode::Supervisor);
    assert_eq!(r.get(8), 0xAAAA); // r8-r12 shared by all non-FIQ modes
    assert_eq!(r.get(12), 0xBBBB);
}

#[test]
fn spsr_is_per_mode() {
    let mut r = Registers::new_post_bios();
    r.switch_mode(Mode::Irq);
    r.set_spsr(Psr(0x1234_0011));
    r.switch_mode(Mode::Supervisor);
    r.set_spsr(Psr(0x5678_0012));
    assert_eq!(r.spsr().0, 0x5678_0012);
    r.switch_mode(Mode::Irq);
    assert_eq!(r.spsr().0, 0x1234_0011);
}

#[test]
fn user_bank_access_from_exception_mode() {
    let mut r = Registers::new_post_bios();
    r.set(13, 0xDEAD);
    r.switch_mode(Mode::Irq);
    assert_eq!(r.get_user(13), 0xDEAD);
    r.set_user(14, 0xBEEF);
    r.switch_mode(Mode::System);
    assert_eq!(r.get(14), 0xBEEF);
}

#[test]
fn write_cpsr_switches_banks() {
    let mut r = Registers::new_post_bios();
    r.set(13, 0x1111);
    r.write_cpsr(Psr(0x12)); // IRQ mode bits
    assert_eq!(r.cpsr.mode(), Mode::Irq);
    assert_ne!(r.get(13), 0x1111);
}

#[test]
fn user_and_system_have_no_spsr() {
    let mut r = Registers::new_post_bios();
    r.set_spsr(Psr(0x1F)); // ignored in System mode
    assert_eq!(r.spsr(), r.cpsr);
}

// ---------------------------------------------------------------- eeprom

/// Feed a write-direction transfer: `bits` MSB-first, length = count.
fn send(e: &mut Eeprom, bits: &[u8]) {
    e.begin(bits.len() as u32, true);
    for &b in bits {
        e.write_bit(b as u16);
    }
}

/// Build a read-request bitstream for `addr` with `a`-bit addressing.
fn read_req(addr: usize, a: usize) -> Vec<u8> {
    let mut v = vec![1, 1];
    for i in (0..a).rev() {
        v.push(((addr >> i) & 1) as u8);
    }
    v.push(0); // stop
    v
}

/// Build a write bitstream: addr + 64-bit `data`, `a`-bit addressing.
fn write_req(addr: usize, a: usize, data: u64) -> Vec<u8> {
    let mut v = vec![1, 0];
    for i in (0..a).rev() {
        v.push(((addr >> i) & 1) as u8);
    }
    for i in (0..64).rev() {
        v.push(((data >> i) & 1) as u8);
    }
    v.push(0); // stop
    v
}

/// Drive a read reply DMA and reassemble the 64-bit word.
fn read_word(e: &mut Eeprom) -> u64 {
    e.begin(68, false);
    let mut w = 0u64;
    for i in 0..68 {
        let b = e.read_bit();
        if i >= 4 {
            w = (w << 1) | b as u64;
        }
    }
    w
}

#[test]
fn writes_and_reads_a_word_at_512b() {
    let mut e = Eeprom::new();
    send(&mut e, &write_req(5, 6, 0x0123_4567_89AB_CDEF)); // count 73 -> 6-bit
    assert_eq!(e.address_bits(), 6);
    send(&mut e, &read_req(5, 6)); // count 9
    assert_eq!(read_word(&mut e), 0x0123_4567_89AB_CDEF);
    assert_eq!(e.backup().len(), 512);
}

#[test]
fn writes_and_reads_a_word_at_8k() {
    let mut e = Eeprom::new();
    send(&mut e, &write_req(1000, 14, 0xDEAD_BEEF_F00D_BABE)); // count 81 -> 14-bit
    assert_eq!(e.address_bits(), 14);
    send(&mut e, &read_req(1000, 14)); // count 17
    assert_eq!(read_word(&mut e), 0xDEAD_BEEF_F00D_BABE);
    assert_eq!(e.backup().len(), 8192);
}

#[test]
fn distinct_addresses_are_independent() {
    let mut e = Eeprom::new();
    send(&mut e, &write_req(0, 6, 0x1111_1111_1111_1111));
    send(&mut e, &write_req(7, 6, 0x2222_2222_2222_2222));
    send(&mut e, &read_req(0, 6));
    assert_eq!(read_word(&mut e), 0x1111_1111_1111_1111);
    send(&mut e, &read_req(7, 6));
    assert_eq!(read_word(&mut e), 0x2222_2222_2222_2222);
}

#[test]
fn restore_sets_size_and_contents() {
    let mut e = Eeprom::new();
    let mut saved = vec![0xFFu8; 8192];
    saved[7] = 0x5A; // word 0, least-significant data byte
    e.restore(&saved);
    assert_eq!(e.address_bits(), 14);
    send(&mut e, &read_req(0, 14));
    assert_eq!(read_word(&mut e) & 0xFF, 0x5A);
}

#[test]
fn eeprom_reply_starts_with_four_dummy_zeros() {
    let mut e = Eeprom::new();
    send(&mut e, &write_req(3, 6, u64::MAX));
    send(&mut e, &read_req(3, 6));
    e.begin(68, false);
    for _ in 0..4 {
        assert_eq!(e.read_bit(), 0);
    }
    assert_eq!(e.read_bit(), 1);
}

#[test]
fn eeprom_backup_restore_round_trips() {
    let mut e = Eeprom::new();
    send(&mut e, &write_req(9, 6, 0x0102_0304_0506_0708));
    let saved = e.backup();
    let mut f = Eeprom::new();
    f.restore(&saved);
    assert_eq!(f.backup(), saved);
    assert_eq!(&saved[72..80], &[1u8, 2, 3, 4, 5, 6, 7, 8]);
}

// ---------------------------------------------------------------- flash

fn unlock(f: &mut Flash) {
    f.write(0x0E00_5555, 0xAA);
    f.write(0x0E00_2AAA, 0x55);
}
fn prog(f: &mut Flash, addr: u32, val: u8) {
    unlock(f);
    f.write(0x0E00_5555, 0xA0);
    f.write(addr, val);
}
fn switch_bank(f: &mut Flash, b: u8) {
    unlock(f);
    f.write(0x0E00_5555, 0xB0);
    f.write(0x0E00_0000, b as u8);
}

#[test]
fn reports_chip_id_only_in_id_mode() {
    let mut f = Flash::new();
    assert_eq!(f.read(0x0E00_0000), 0xFF); // data, not ID
    unlock(&mut f);
    f.write(0x0E00_5555, 0x90); // enter ID
    assert_eq!(f.read(0x0E00_0000), 0x62);
    assert_eq!(f.read(0x0E00_0001), 0x13);
    unlock(&mut f);
    f.write(0x0E00_5555, 0xF0); // exit
    assert_eq!(f.read(0x0E00_0000), 0xFF);
}

#[test]
fn program_writes_exactly_one_byte() {
    let mut f = Flash::new();
    prog(&mut f, 0x0E00_1234, 0x42);
    assert_eq!(f.read(0x0E00_1234), 0x42);
    // the following raw write is a fresh command, not flash data
    f.write(0x0E00_1235, 0x99);
    assert_eq!(f.read(0x0E00_1235), 0xFF);
}

#[test]
fn sector_erase_clears_one_4k_sector() {
    let mut f = Flash::new();
    prog(&mut f, 0x0E00_0010, 0x11);
    prog(&mut f, 0x0E00_2000, 0x22);
    unlock(&mut f);
    f.write(0x0E00_5555, 0x80); // erase setup
    unlock(&mut f);
    f.write(0x0E00_0000, 0x30); // sector erase @ 0
    assert_eq!(f.read(0x0E00_0010), 0xFF);
    assert_eq!(f.read(0x0E00_2000), 0x22); // untouched
}

#[test]
fn chip_erase_clears_both_banks() {
    let mut f = Flash::new();
    prog(&mut f, 0x0E00_0000, 0x01);
    switch_bank(&mut f, 1);
    prog(&mut f, 0x0E00_0000, 0x02);
    switch_bank(&mut f, 0);
    unlock(&mut f);
    f.write(0x0E00_5555, 0x80);
    unlock(&mut f);
    f.write(0x0E00_5555, 0x10); // chip erase
    assert_eq!(f.read(0x0E00_0000), 0xFF);
    switch_bank(&mut f, 1);
    assert_eq!(f.read(0x0E00_0000), 0xFF);
}

#[test]
fn bank_switch_addresses_the_upper_64k() {
    let mut f = Flash::new();
    prog(&mut f, 0x0E00_0000, 0xAB);
    switch_bank(&mut f, 1);
    prog(&mut f, 0x0E00_0000, 0xCD);
    assert_eq!(f.read(0x0E00_0000), 0xCD);
    switch_bank(&mut f, 0);
    assert_eq!(f.read(0x0E00_0000), 0xAB);
}

#[test]
fn flash_512_has_one_bank_and_its_own_id() {
    let mut f = Flash::with_kind(FlashKind::M512);
    assert_eq!(f.bytes().len(), 0x1_0000);
    unlock(&mut f);
    f.write(0x0E00_5555, 0x90);
    assert_eq!(f.read(0x0E00_0000), 0x32);
    assert_eq!(f.read(0x0E00_0001), 0x1B);
}

#[test]
fn flash_load_copies_image() {
    let mut f = Flash::new();
    let mut img = vec![0u8; 0x2_0000];
    img[0x1_0005] = 0x77;
    f.load(&img);
    assert_eq!(f.bytes(), &img[..]);
    switch_bank(&mut f, 1);
    assert_eq!(f.read(0x0E00_0005), 0x77);
}

// ---------------------------------------------------------------- keypad

#[test]
fn released_is_all_ones() {
    assert_eq!(keyinput(Buttons::default()), 0x03FF);
}

#[test]
fn buttons_map_to_gba_bit_order() {
    assert_eq!(keyinput(Buttons::A()), 0x03FE); // bit 0 low
    assert_eq!(keyinput(Buttons::START()), 0x03F7); // bit 3 low
    assert_eq!(keyinput(Buttons::DOWN()), 0x037F); // bit 7 low
    assert_eq!(keyinput(Buttons::R()), 0x02FF); // bit 8 low
    assert_eq!(keyinput(Buttons::L()), 0x01FF); // bit 9 low
    assert_eq!(keyinput(Buttons::L().with(Buttons::R())), 0x00FF);
}

// ---------------------------------------------------------------- save

/// A ROM that embeds `sig` at a word boundary (offset 0x100).
fn rom_with(sig: &[u8]) -> Vec<u8> {
    let mut rom = vec![0u8; 0x200];
    rom[0x100..0x100 + sig.len()].copy_from_slice(sig);
    rom
}

#[test]
fn detects_each_type_from_its_signature() {
    assert!(matches!(Save::detect(&rom_with(b"FLASH1M_V")), Save::Flash(_)));
    assert!(matches!(Save::detect(&rom_with(b"SRAM_V")), Save::Sram(_)));
    assert!(matches!(Save::detect(&rom_with(b"EEPROM_V")), Save::Absent));
    assert!(matches!(Save::detect(&[0u8; 0x200]), Save::Absent));
    assert_eq!(Save::detect(&rom_with(b"FLASH1M_V")).backup().unwrap().len(), 0x2_0000);
    assert_eq!(Save::detect(&rom_with(b"FLASH512_V")).backup().unwrap().len(), 0x1_0000);
}

#[test]
fn sram_reads_writes_and_round_trips() {
    let mut s = Save::Sram(vec![0xFF; SRAM_SIZE]);
    s.write(0x0E00_0005, 0x42);
    assert_eq!(s.read(0x0E00_0005), 0x42);
    assert_eq!(s.read(0x0E01_0005), 0x42); // mirrors every 32KB
    let saved = s.backup().unwrap();
    assert_eq!(saved.len(), SRAM_SIZE);
    let mut t = Save::Sram(vec![0xFF; SRAM_SIZE]);
    t.restore(&saved);
    assert_eq!(t.read(0x0E00_0005), 0x42);
}

#[test]
fn none_is_open_bus_and_has_no_backup() {
    let mut s = Save::Absent;
    s.write(0x0E00_0000, 0x12); // ignored
    assert_eq!(s.read(0x0E00_0000), 0xFF);
    assert!(s.backup().is_none());
}

#[test]
fn unaligned_signature_is_not_detected() {
    let mut rom = vec![0u8; 0x200];
    rom[0x101..0x101 + 6].copy_from_slice(b"SRAM_V");
    assert!(matches!(Save::detect(&rom), Save::Absent));
    assert!(matches!(Save::detect(&rom_with(b"FLASH_V")), Save::Flash(_)));
    assert!(matches!(Save::detect(&rom_with(b"SRAM_F_V")), Save::Sram(_)));
}

// ---------------------------------------------------------------- timing

#[test]
fn internal_regions_are_one_cycle() {
    for r in [0x00, 0x03, 0x04, 0x07] {
        for w in [Width::Bits8, Width::Bits16, Width::Bits32] {
            assert_eq!(access_cycles(r, 0, w, false), 1, "region {r:#x} {w:?}");
        }
    }
}

#[test]
fn sixteen_bit_buses_double_on_32bit() {
    assert_eq!(access_cycles(0x02, 0, Width::Bits16, false), 3); // EWRAM
    assert_eq!(access_cycles(0x02, 0, Width::Bits32, false), 6);
    assert_eq!(access_cycles(0x05, 0, Width::Bits16, false), 1); // palette
    assert_eq!(access_cycles(0x05, 0, Width::Bits32, false), 2);
    assert_eq!(access_cycles(0x06, 0, Width::Bits32, false), 2); // VRAM
}

#[test]
fn rom_default_waitstates() {
    // WAITCNT=0: WS0 N=4 -> 5, S=2 -> 3; 32-bit N = 5 + 3 = 8.
    assert_eq!(access_cycles(0x08, 0, Width::Bits16, false), 5);
    assert_eq!(access_cycles(0x08, 0, Width::Bits16, true), 3);
    assert_eq!(access_cycles(0x08, 0, Width::Bits32, false), 8);
    assert_eq!(access_cycles(0x08, 0, Width::Bits32, true), 6);
}

#[test]
fn rom_waitcnt_selects_region_and_values() {
    // WS0 N field (bits2-3)=2 -> value 2 -> 1+2=3 (16-bit N).
    assert_eq!(access_cycles(0x08, 0b10 << 2, Width::Bits16, false), 3);
    // WS1 region is addr 0x0A; N field bits5-6.
    assert_eq!(access_cycles(0x0A, 0, Width::Bits16, false), 5);
    // WS2 region is addr 0x0C; S field bit10 set -> 1 -> 1+1=2.
    assert_eq!(access_cycles(0x0C, 1 << 10, Width::Bits16, true), 2);
}

#[test]
fn sram_default_and_configured() {
    assert_eq!(access_cycles(0x0E, 0, Width::Bits8, false), 5); // 1+4
    assert_eq!(access_cycles(0x0E, 0b10, Width::Bits8, false), 3); // field=2 -> 1+2
}

#[test]
fn width_bytes_and_unmapped_region() {
    assert_eq!(Width::Bits8.bytes(), 1);
    assert_eq!(Width::Bits16.bytes(), 2);
    assert_eq!(Width::Bits32.bytes(), 4);
    assert_eq!(access_cycles(0x01, 0, Width::Bits32, false), 1);
    assert_eq!(access_cycles(0x0D, 0b11 << 8, Width::Bits16, false), 9); // WS2 N=8
}

// ---------------------------------------------------------------- ppu colour

#[test]
fn ppu_bgr555_conversion_expands_channels() {
    assert_eq!(bgr555_to_rgb(0x0000), Rgb(0, 0, 0));
    assert_eq!(bgr555_to_rgb(0x7FFF), Rgb(255, 255, 255));
    assert_eq!(bgr555_to_rgb(0x001F), Rgb(255, 0, 0)); // red is low bits
    assert_eq!(bgr555_to_rgb(0x7C00), Rgb(0, 0, 255)); // blue is high bits
}

#[test]
fn tests_bgr555_conversion_expands_channels() {
    assert_eq!(bgr555_to_rgb(0x0000), Rgb(0, 0, 0));
    assert_eq!(bgr555_to_rgb(0x7FFF), Rgb(255, 255, 255));
    assert_eq!(bgr555_to_rgb(0x001F), Rgb(255, 0, 0)); // red is low bits
    assert_eq!(bgr555_to_rgb(0x7C00), Rgb(0, 0, 255)); // blue is high bits
}

#[test]
fn register_file_save_state_round_trips() {
    let mut regs = Registers::new_post_bios();
    regs.set(3, 0xDEAD_BEEF);
    regs.switch_mode(Mode::Irq);
    regs.set(13, 0x1234);
    let mut w = Writer::new();
    regs.serialize(&mut w);
    assert_eq!(w.buf.len(), 176);
    let mut back = Registers::new_post_bios();
    let mut r = Reader::new(&w.buf);
    back.deserialize(&mut r).unwrap();
    assert_eq!(back.get(3), 0xDEAD_BEEF);
    assert_eq!(back.get(13), 0x1234);
    assert_eq!(back.cpsr.mode(), Mode::Irq);
    let mut short = Reader::new(&w.buf[..100]);
    assert!(back.deserialize(&mut short).is_err());
    assert_eq!(back.get(13), 0x1234); // left as it was
}
