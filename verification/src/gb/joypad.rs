//! P1 (0xFF00) button matrix. Select lines are active-low; pressed = 0.
use vstd::prelude::*;
use crate::machine::Buttons;
use crate::state::{Reader, StateError, Writer};

verus! {

pub struct Joypad {
    select: u8,
    buttons: Buttons,
}

/// The P1 value seen for select lines `select` (bits 4-5 as written) and held
/// buttons `b`: each selected row pulls its pressed buttons' bits low.
pub open spec fn p1_value(select: u8, b: u16) -> u8 {
    let dirs: u8 = if select & 0x10 == 0 { !((b as u8) & 0x0F) & 0x0F } else { 0x0F };
    let acts: u8 = if select & 0x20 == 0 { !(((b >> 4u16) as u8) & 0x0F) & 0x0F } else { 0x0F };
    0xC0 | select | (0x0F & dirs & acts)
}

impl Joypad {
    pub closed spec fn select_lines(&self) -> u8 {
        self.select
    }

    pub closed spec fn held(&self) -> Buttons {
        self.buttons
    }

    /// Nothing selected, nothing pressed.
    pub fn new() -> (j: Self)
        ensures
            j.select_lines() == 0x30,
            j.held() == Buttons(0),
    {
        Joypad { select: 0x30, buttons: Buttons(0) }
    }

    pub fn read(&self) -> (r: u8)
        ensures
            r == p1_value(self.select_lines(), self.held().0),
    {
        let b = self.buttons.0;
        let dirs: u8 = if self.select & 0x10 == 0 { !((b as u8) & 0x0F) & 0x0F } else { 0x0F };
        let acts: u8 = if self.select & 0x20 == 0 {
            !(((b >> 4u16) as u8) & 0x0F) & 0x0F
        } else {
            0x0F
        };
        0xC0 | self.select | (0x0F & dirs & acts)
    }

    /// Only the select lines (bits 4-5) are writable.
    pub fn write(&mut self, value: u8)
        ensures
            final(self).select_lines() == value & 0x30,
            final(self).held() == old(self).held(),
    {
        self.select = value & 0x30;
    }

    /// Updates the held buttons. Returns true when a button became newly
    /// pressed (the joypad interrupt condition), whichever row is selected.
    pub fn set_buttons(&mut self, buttons: Buttons) -> (irq: bool)
        ensures
            irq == (buttons.0 & !old(self).held().0 != 0),
            final(self).held() == buttons,
            final(self).select_lines() == old(self).select_lines(),
    {
        let newly_pressed = buttons.0 & !self.buttons.0;
        self.buttons = buttons;
        newly_pressed != 0
    }

    pub fn serialize(&self, w: &mut Writer)
        ensures
            final(w).buf@ == old(w).buf@.push(self.select_lines()),
    {
        w.put_u8(self.select);
    }

    pub fn deserialize(&mut self, r: &mut Reader) -> (res: Result<(), StateError>)
        ensures
            old(r).rest().len() >= 1 ==> res is Ok && final(self).select_lines() == old(r).rest()[0]
                && final(r).rest() == old(r).rest().skip(1),
            old(r).rest().len() < 1 ==> res == Err::<(), StateError>(StateError::Truncated)
                && final(self).select_lines() == old(self).select_lines(),
            final(self).held() == old(self).held(),
    {
        self.select = r.get_u8()?;
        Ok(())
    }
}

impl Default for Joypad {
    fn default() -> (j: Self)
        ensures
            j.select_lines() == 0x30,
            j.held() == Buttons(0),
    {
        Joypad::new()
    }
}

} // verus!
