//! Serial port stub. Captures outgoing bytes; test ROMs report pass/fail
//! through it, so a harness reads `output()`.
use vstd::prelude::*;

verus! {

pub struct Serial {
    sb: u8,
    out: Vec<u8>,
}

impl Serial {
    pub closed spec fn sb_value(&self) -> u8 {
        self.sb
    }

    /// Every byte sent so far.
    pub closed spec fn sent(&self) -> Seq<u8> {
        self.out@
    }

    pub fn new() -> (s: Self)
        ensures
            s.sb_value() == 0,
            s.sent() == Seq::<u8>::empty(),
    {
        Serial { sb: 0, out: Vec::new() }
    }

    pub fn read_sb(&self) -> (r: u8)
        ensures
            r == self.sb_value(),
    {
        self.sb
    }

    pub fn write_sb(&mut self, value: u8)
        ensures
            final(self).sb_value() == value,
            final(self).sent() == old(self).sent(),
    {
        self.sb = value;
    }

    /// SC reads back with unused bits high and the transfer already complete.
    pub fn read_sc(&self) -> (r: u8)
        ensures
            r == 0x7E,
    {
        0x7E
    }

    /// A write with the start bit (7) set sends SB.
    pub fn write_sc(&mut self, value: u8)
        ensures
            final(self).sb_value() == old(self).sb_value(),
            final(self).sent() == if value & 0x80 != 0 {
                old(self).sent().push(old(self).sb_value())
            } else {
                old(self).sent()
            },
    {
        if value & 0x80 != 0 {
            self.out.push(self.sb);
        }
    }

    pub fn output(&self) -> (r: &[u8])
        ensures
            r@ == self.sent(),
    {
        self.out.as_slice()
    }
}

impl Default for Serial {
    fn default() -> (s: Self)
        ensures
            s.sb_value() == 0,
            s.sent() == Seq::<u8>::empty(),
    {
        Serial::new()
    }
}

} // verus!
