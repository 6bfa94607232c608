use termboy::gb::apu::Apu;
use termboy::gb::apu_state::{APU_STATE_LEN, PULSE_STATE_LEN};
use termboy::gba::apu::Apu as GbaApu;
use termboy::gba::apu_state::FIXED_STATE_LEN;
use termboy::state::{Reader, StateError, Writer};

fn gb_bytes(a: &Apu) -> Vec<u8> {
    let mut w = Writer::new();
    a.serialize(&mut w);
    w.buf
}

fn gba_bytes(a: &GbaApu) -> Vec<u8> {
    let mut w = Writer::new();
    a.serialize(&mut w);
    w.buf
}

fn busy_gb_apu() -> Apu {
    let mut a = Apu::new();
    a.write(0xFF10, 0x15); // sweep
    a.write(0xFF11, 0x80);
    a.write(0xFF12, 0xF3);
    a.write(0xFF13, 0x23);
    a.write(0xFF14, 0x81); // trigger ch1, freq 0x123
    a.write(0xFF21, 0xA1);
    a.write(0xFF22, 0x52);
    a.write(0xFF23, 0x80); // trigger noise
    a.write(0xFF24, 0x35);
    a.write(0xFF25, 0x9C);
    for i in 0..16u16 {
        a.write(0xFF30 + i, (i as u8) * 17);
    }
    a.tick(10_000);
    a
}

#[test]
fn gb_apu_state_round_trips() {
    let a = busy_gb_apu();
    let bytes = gb_bytes(&a);
    assert_eq!(bytes.len(), APU_STATE_LEN);
    let mut b = Apu::new();
    let mut r = Reader::new(&bytes);
    assert_eq!(b.deserialize(&mut r), Ok(()));
    assert_eq!(gb_bytes(&b), bytes);
    for addr in (0xFF10..=0xFF26u16).chain(0xFF30..=0xFF3Fu16) {
        assert_eq!(b.read(addr), a.read(addr), "register {:04X}", addr);
    }
    assert_eq!(b.ch1.freq, a.ch1.freq);
    assert_eq!(b.ch4.lfsr, a.ch4.lfsr);
    assert_eq!(b.ch1.timer, a.ch1.timer);
}

#[test]
fn gb_apu_state_layout_puts_channel_one_after_the_sequencer() {
    let a = busy_gb_apu();
    let bytes = gb_bytes(&a);
    assert_eq!(bytes[0], 1); // master on
    // ch1 begins at offset 6: has_sweep, enabled, NR10, NR11, NR12, freq (LE)
    assert_eq!(bytes[6], 1);
    assert_eq!(bytes[8], a.ch1.nrx0);
    assert_eq!(bytes[11], 0x23);
    assert_eq!(bytes[12], 0x01);
    // wave RAM closes the encoding
    assert_eq!(bytes[APU_STATE_LEN - 16], 0);
    assert_eq!(bytes[APU_STATE_LEN - 1], 15 * 17);
}

#[test]
fn gb_apu_state_short_input_is_refused_and_changes_nothing() {
    let a = busy_gb_apu();
    let bytes = gb_bytes(&a);
    let mut b = Apu::new();
    let before = gb_bytes(&b);
    let mut r = Reader::new(&bytes[..APU_STATE_LEN - 1]);
    assert_eq!(b.deserialize(&mut r), Err(StateError::Truncated));
    assert_eq!(gb_bytes(&b), before);
}

#[test]
fn pulse_state_round_trips_with_a_negative_timer() {
    let mut a = busy_gb_apu();
    a.ch2.timer = -5;
    a.ch2.freq = 0x7FF;
    let mut w = Writer::new();
    a.ch2.serialize(&mut w);
    assert_eq!(w.buf.len(), PULSE_STATE_LEN);
    assert_eq!(&w.buf[9..13], &[0xFB, 0xFF, 0xFF, 0xFF]);
    let mut b = Apu::new();
    let mut r = Reader::new(&w.buf);
    assert_eq!(b.ch2.deserialize(&mut r), Ok(()));
    assert_eq!(b.ch2.timer, -5);
    assert_eq!(b.ch2.freq, 0x7FF);
    let mut r = Reader::new(&w.buf[..PULSE_STATE_LEN - 1]);
    assert_eq!(b.ch1.deserialize(&mut r), Err(StateError::Truncated));
}

fn busy_gba_apu() -> GbaApu {
    let mut a = GbaApu::new();
    a.write(0x84, 0x80); // master on
    a.write(0x70, 0x40); // wave bank select: play bank 1
    a.write(0x90, 0x12);
    a.write(0x62, 0x31);
    a.write(0x63, 0xF7);
    a.write(0x65, 0x80); // trigger ch1
    a.write(0x82, 0x0E);
    a.write(0x83, 0x77);
    a.fifo_push(0, 0x40);
    a.fifo_push(0, 0xC0);
    a.fifo_push(0, 0x01);
    a.fifo_push(1, 0x7F);
    a.tick(5_000);
    a
}

#[test]
fn gba_apu_state_round_trips_with_queued_fifo_bytes() {
    let a = busy_gba_apu();
    let bytes = gba_bytes(&a);
    assert_eq!(bytes.len(), FIXED_STATE_LEN + (6 + 3) + (6 + 1));
    let mut b = GbaApu::new();
    let mut r = Reader::new(&bytes);
    assert_eq!(b.deserialize(&mut r), Ok(()));
    assert_eq!(gba_bytes(&b), bytes);
    assert_eq!(b.fifo_a.bytes, vec![0x40, 0xC0, 0x01]);
    assert_eq!(b.fifo_b.bytes, vec![0x7F]);
    assert_eq!(b.play_bank, 1);
    for reg in 0x60..0xA0usize {
        assert_eq!(b.read(reg), a.read(reg), "register {:02X}", reg);
    }
}

#[test]
fn gba_apu_state_with_a_third_wave_bank_is_refused() {
    let a = busy_gba_apu();
    let mut bytes = gba_bytes(&a);
    assert_eq!(bytes[65], 1);
    bytes[65] = 2;
    let mut b = GbaApu::new();
    let before = gba_bytes(&b);
    let mut r = Reader::new(&bytes);
    assert_eq!(b.deserialize(&mut r), Err(StateError::Truncated));
    assert_eq!(gba_bytes(&b), before);
}

#[test]
fn gba_apu_state_with_a_cut_fifo_is_refused() {
    let a = busy_gba_apu();
    let bytes = gba_bytes(&a);
    let mut b = GbaApu::new();
    let mut r = Reader::new(&bytes[..bytes.len() - 1]);
    assert_eq!(b.deserialize(&mut r), Err(StateError::Truncated));
    let mut r = Reader::new(&bytes[..FIXED_STATE_LEN + 5]);
    assert_eq!(b.deserialize(&mut r), Err(StateError::Truncated));
}
