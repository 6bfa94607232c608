//! Buttons -> KEYINPUT (0x4000130). Active low: 0 = pressed. The bit order
//! is GBA-native and differs from the frontend's `Buttons` layout.
use vstd::prelude::*;
use crate::machine::Buttons;

verus! {

/// KEYINPUT for the held buttons `b`.
pub open spec fn keyinput_value(b: u16) -> u16 {
    let down: u16 = (if b & 0x0010 == 0x0010 { 0x001u16 } else { 0 }) | (if b & 0x0020 == 0x0020 {
        0x002u16
    } else {
        0
    }) | (if b & 0x0040 == 0x0040 { 0x004u16 } else { 0 }) | (if b & 0x0080 == 0x0080 {
        0x008u16
    } else {
        0
    }) | (if b & 0x0001 == 0x0001 { 0x010u16 } else { 0 }) | (if b & 0x0002 == 0x0002 {
        0x020u16
    } else {
        0
    }) | (if b & 0x0004 == 0x0004 { 0x040u16 } else { 0 }) | (if b & 0x0008 == 0x0008 {
        0x080u16
    } else {
        0
    }) | (if b & 0x0200 == 0x0200 { 0x100u16 } else { 0 }) | (if b & 0x0100 == 0x0100 {
        0x200u16
    } else {
        0
    });
    !down & 0x03FF
}

pub fn keyinput(b: Buttons) -> (k: u16)
    ensures
        k == keyinput_value(b.0),
{
    let down: u16 = (if b.contains(Buttons::A()) { 0x001u16 } else { 0 })
        | (if b.contains(Buttons::B()) { 0x002u16 } else { 0 })
        | (if b.contains(Buttons::SELECT()) { 0x004u16 } else { 0 })
        | (if b.contains(Buttons::START()) { 0x008u16 } else { 0 })
        | (if b.contains(Buttons::RIGHT()) { 0x010u16 } else { 0 })
        | (if b.contains(Buttons::LEFT()) { 0x020u16 } else { 0 })
        | (if b.contains(Buttons::UP()) { 0x040u16 } else { 0 })
        | (if b.contains(Buttons::DOWN()) { 0x080u16 } else { 0 })
        | (if b.contains(Buttons::R()) { 0x100u16 } else { 0 })
        | (if b.contains(Buttons::L()) { 0x200u16 } else { 0 });
    !down & 0x03FF
}

/// KEYINPUT bit `i` (0-9): A, B, Select, Start, Right, Left, Up, Down, R, L.
pub open spec fn key_bit(i: int) -> u16 {
    if i == 0 { 0x001 } else if i == 1 { 0x002 } else if i == 2 { 0x004 } else if i == 3 { 0x008 }
    else if i == 4 { 0x010 } else if i == 5 { 0x020 } else if i == 6 { 0x040 } else if i == 7 { 0x080 }
    else if i == 8 { 0x100 } else { 0x200 }
}

/// The frontend `Buttons` bit of the key that KEYINPUT bit `i` reports.
pub open spec fn key_button(i: int) -> u16 {
    if i == 0 { 0x0010 } else if i == 1 { 0x0020 } else if i == 2 { 0x0040 } else if i == 3 { 0x0080 }
    else if i == 4 { 0x0001 } else if i == 5 { 0x0002 } else if i == 6 { 0x0004 } else if i == 7 { 0x0008 }
    else if i == 8 { 0x0200 } else { 0x0100 }
}

/// Every one of the ten keys is reported pressed (its KEYINPUT bit low)
/// exactly when it is held, and the unused high bits read 0.
pub proof fn lemma_keyinput_active_low(b: u16)
    ensures
        forall|i: int|
            0 <= i < 10 ==> ((#[trigger] key_bit(i)) & keyinput_value(b) == 0) == (b & key_button(i)
                == key_button(i)),
        keyinput_value(b) <= 0x03FF,
{
    let d: u16 = (if b & 0x0010 == 0x0010 { 0x001u16 } else { 0 }) | (if b & 0x0020 == 0x0020 { 0x002u16 } else { 0 })
        | (if b & 0x0040 == 0x0040 { 0x004u16 } else { 0 }) | (if b & 0x0080 == 0x0080 { 0x008u16 } else { 0 })
        | (if b & 0x0001 == 0x0001 { 0x010u16 } else { 0 }) | (if b & 0x0002 == 0x0002 { 0x020u16 } else { 0 })
        | (if b & 0x0004 == 0x0004 { 0x040u16 } else { 0 }) | (if b & 0x0008 == 0x0008 { 0x080u16 } else { 0 })
        | (if b & 0x0200 == 0x0200 { 0x100u16 } else { 0 }) | (if b & 0x0100 == 0x0100 { 0x200u16 } else { 0 });
    assert(keyinput_value(b) == !d & 0x03FF);
    let k = !d & 0x03FF;
    assert({
        &&& (0x001u16 & k == 0) == (b & 0x0010 == 0x0010)
        &&& (0x002u16 & k == 0) == (b & 0x0020 == 0x0020)
        &&& (0x004u16 & k == 0) == (b & 0x0040 == 0x0040)
        &&& (0x008u16 & k == 0) == (b & 0x0080 == 0x0080)
        &&& (0x010u16 & k == 0) == (b & 0x0001 == 0x0001)
        &&& (0x020u16 & k == 0) == (b & 0x0002 == 0x0002)
        &&& (0x040u16 & k == 0) == (b & 0x0004 == 0x0004)
        &&& (0x080u16 & k == 0) == (b & 0x0008 == 0x0008)
        &&& (0x100u16 & k == 0) == (b & 0x0200 == 0x0200)
        &&& (0x200u16 & k == 0) == (b & 0x0100 == 0x0100)
        &&& k <= 0x03FF
    }) by (bit_vector)
        requires
            d == (if b & 0x0010 == 0x0010 { 0x001u16 } else { 0 }) | (if b & 0x0020 == 0x0020 { 0x002u16 } else { 0 })
        | (if b & 0x0040 == 0x0040 { 0x004u16 } else { 0 }) | (if b & 0x0080 == 0x0080 { 0x008u16 } else { 0 })
        | (if b & 0x0001 == 0x0001 { 0x010u16 } else { 0 }) | (if b & 0x0002 == 0x0002 { 0x020u16 } else { 0 })
        | (if b & 0x0004 == 0x0004 { 0x040u16 } else { 0 }) | (if b & 0x0008 == 0x0008 { 0x080u16 } else { 0 })
        | (if b & 0x0200 == 0x0200 { 0x100u16 } else { 0 }) | (if b & 0x0100 == 0x0100 { 0x200u16 } else { 0 }),
            k == !d & 0x03FF;
}

} // verus!
