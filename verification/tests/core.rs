use termboy::machine::{Buttons, FrameBuffer};
use termboy::state::{rom_id, Reader, StateError, Writer};

#[test]
fn buttons_compose_and_query() {
    let b = Buttons::default().with(Buttons::A()).with(Buttons::START());
    assert!(b.contains(Buttons::A()));
    assert!(b.contains(Buttons::START()));
    assert!(!b.contains(Buttons::LEFT()));
}

#[test]
fn buttons_widen_to_u16_with_shoulder_buttons() {
    let b = Buttons::default().with(Buttons::L()).with(Buttons::R());
    assert!(b.contains(Buttons::L()) && b.contains(Buttons::R()));
    assert!(!b.contains(Buttons::A()));
    assert_eq!(b.0, 0x0300);
}

#[test]
fn framebuffer_dimensions() {
    let fb = FrameBuffer::new(160, 144);
    assert_eq!(fb.pixels.len(), 160 * 144);
}

#[test]
fn round_trips_scalars_and_bytes() {
    let mut w = Writer::new();
    w.put_u8(0x12);
    w.put_u16(0x3456);
    w.put_u32(0x789A_BCDE);
    w.put_u64(0x0102_0304_0506_0708);
    w.put_bool(true);
    w.put_bytes(&[9, 8, 7]);
    let mut r = Reader::new(&w.buf);
    assert_eq!(r.get_u8().unwrap(), 0x12);
    assert_eq!(r.get_u16().unwrap(), 0x3456);
    assert_eq!(r.get_u32().unwrap(), 0x789A_BCDE);
    assert_eq!(r.get_u64().unwrap(), 0x0102_0304_0506_0708);
    assert!(r.get_bool().unwrap());
    assert_eq!(r.get_bytes(3).unwrap(), &[9, 8, 7]);
}

#[test]
fn underrun_is_an_error_not_a_panic() {
    let mut r = Reader::new(&[1, 2]);
    assert_eq!(r.get_u32(), Err(StateError::Truncated));
}

#[test]
fn rom_id_is_stable_and_distinguishes() {
    assert_eq!(rom_id(b"abc"), rom_id(b"abc"));
    assert_ne!(rom_id(b"abc"), rom_id(b"abd"));
}

// ---- additional checks ----

#[test]
fn failed_read_leaves_the_reader_in_place() {
    let mut r = Reader::new(&[7, 8, 9]);
    assert_eq!(r.get_u32(), Err(StateError::Truncated));
    assert_eq!(r.get_u16().unwrap(), 0x0807);
    assert_eq!(r.get_u8().unwrap(), 9);
    assert_eq!(r.get_u8(), Err(StateError::Truncated));
}

#[test]
fn rom_id_of_empty_is_the_fnv_offset_basis() {
    assert_eq!(rom_id(&[]), 0xcbf2_9ce4_8422_2325);
    assert_eq!(rom_id(b"a"), 0xaf63_dc4c_8601_ec8c);
}

#[test]
fn get_array_reads_fixed_width() {
    let mut r = Reader::new(&[1, 2, 3, 4, 5]);
    let a: [u8; 4] = r.get_array().unwrap();
    assert_eq!(a, [1, 2, 3, 4]);
    let b: Result<[u8; 4], StateError> = r.get_array();
    assert_eq!(b, Err(StateError::Truncated));
}

#[test]
fn state_error_messages() {
    assert_eq!(StateError::WrongRom.message(), "save state is for a different game");
    assert_eq!(StateError::Truncated.message(), "save state is truncated or corrupt");
}

#[test]
fn bool_encoding_is_one_byte() {
    let mut w = Writer::new();
    w.put_bool(false);
    w.put_bool(true);
    assert_eq!(w.buf, vec![0, 1]);
}
