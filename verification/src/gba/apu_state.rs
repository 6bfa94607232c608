//! Save-state layout of the GBA sound unit: the four PSG channels as on the
//! Game Boy (the wave channel followed by its playing bank), the control
//! registers, both wave banks, then each Direct Sound FIFO with its length in
//! front. The host-side sample plumbing is not part of a state.
use vstd::prelude::*;
use vstd::bytes::{
    spec_u16_to_le_bytes, spec_u32_to_le_bytes, lemma_auto_spec_u16_to_from_le_bytes,
    lemma_auto_spec_u32_to_from_le_bytes,
};
use crate::bytes::copy_of;
use crate::gb::apu_state::{
    lemma_noise_round_trip, lemma_pulse_round_trip, lemma_wave_round_trip, noise_bytes,
    noise_decode, noise_from, pulse_bytes, pulse_decode, pulse_from, wave_bytes, wave_decode,
    wave_from,
};
use crate::gba::apu::{Apu, ApuView, Fifo, FifoView};
use crate::state::{Reader, StateError, Writer, bool_byte, read_u16_at, read_u32_at, u16_at, u32_at};

verus! {

/// Bytes in the fixed part of the encoding, before the two FIFOs.
pub const FIXED_STATE_LEN: usize = 119;

// ------------------------------------------------------------------ FIFO

pub open spec fn fifo_bytes(f: FifoView) -> Seq<u8> {
    spec_u32_to_le_bytes(f.bytes.len() as u32) + f.bytes + seq![f.output, bool_byte(f.needs_dma)]
}

/// Bytes that the FIFO encoded at the front of `s` takes up.
pub open spec fn fifo_size(s: Seq<u8>) -> int {
    6 + u32_at(s, 0)
}

/// Whether `s` starts with a whole FIFO encoding.
pub open spec fn fifo_fits(s: Seq<u8>) -> bool {
    s.len() >= 4 && s.len() >= fifo_size(s)
}

pub open spec fn fifo_from(s: Seq<u8>) -> FifoView {
    let n = u32_at(s, 0) as int;
    FifoView { bytes: s.subrange(4, 4 + n), output: s[4 + n], needs_dma: s[5 + n] != 0 }
}

/// A FIFO read back from its encoding is the FIFO that was written, and the
/// encoding says how long it is.
pub proof fn lemma_fifo_round_trip(f: FifoView, rest: Seq<u8>)
    requires
        f.bytes.len() <= u32::MAX,
    ensures
        fifo_bytes(f).len() == f.bytes.len() + 6,
        fifo_fits(fifo_bytes(f) + rest),
        fifo_size(fifo_bytes(f) + rest) == f.bytes.len() + 6,
        fifo_from(fifo_bytes(f) + rest) == f,
{
    lemma_auto_spec_u32_to_from_le_bytes();
    let s = fifo_bytes(f) + rest;
    let n = f.bytes.len() as int;
    assert(s.subrange(0, 4) =~= spec_u32_to_le_bytes(f.bytes.len() as u32));
    assert(s.subrange(4, 4 + n) =~= f.bytes);
}

impl Fifo {
    pub fn serialize(&self, w: &mut Writer)
        ensures
            final(w).buf@ == old(w).buf@ + fifo_bytes(self@),
    {
        proof {
            lemma_auto_spec_u32_to_from_le_bytes();
        }
        w.put_u32(self.bytes.len() as u32);
        w.put_bytes(self.bytes.as_slice());
        w.put_u8(self.output);
        w.put_bool(self.needs_dma);
        assert(w.buf@ =~= old(w).buf@ + fifo_bytes(self@));
    }

    /// Restores the FIFO; a short input is refused and changes nothing.
    pub fn deserialize(&mut self, r: &mut Reader) -> (res: Result<(), StateError>)
        ensures
            ({
                let s = old(r).rest();
                &&& fifo_fits(s) ==> {
                    &&& res is Ok
                    &&& final(self)@ == fifo_from(s)
                    &&& final(r).rest() == s.skip(fifo_size(s))
                }
                &&& !fifo_fits(s) ==> {
                    &&& res == Err::<(), StateError>(StateError::Truncated)
                    &&& final(self)@ == old(self)@
                }
            }),
    {
        let ghost s = r.rest();
        let n = r.get_u32()?;
        proof {
            assert(s.take(4) =~= s.subrange(0, 4));
        }
        let bytes = r.get_bytes(n as usize)?;
        let output = r.get_u8()?;
        let needs_dma = r.get_bool()?;
        proof {
            let m = n as int;
            assert(s.skip(4).take(m) =~= s.subrange(4, 4 + m));
            assert(s.skip(4).skip(m) =~= s.skip(4 + m));
            assert(s.skip(4 + m).skip(1).skip(1) =~= s.skip(6 + m));
        }
        self.bytes = copy_of(bytes);
        self.output = output;
        self.needs_dma = needs_dma;
        Ok(())
    }
}

// ------------------------------------------------------------------ the unit

pub open spec fn apu_bytes(a: ApuView) -> Seq<u8> {
    seq![bool_byte(a.on)]
        + spec_u32_to_le_bytes(a.seq_timer)
        + seq![a.seq_step]
        + spec_u32_to_le_bytes(a.prescale)
        + pulse_bytes(a.ch1)
        + pulse_bytes(a.ch2)
        + wave_bytes(a.ch3)
        + spec_u32_to_le_bytes(a.play_bank as u32)
        + noise_bytes(a.ch4)
        + spec_u16_to_le_bytes(a.soundcnt_l)
        + spec_u16_to_le_bytes(a.soundcnt_h)
        + a.wave_ram
        + fifo_bytes(a.fifo_a)
        + fifo_bytes(a.fifo_b)
}

/// Where the second FIFO starts in the encoding `s`.
pub open spec fn second_fifo_at(s: Seq<u8>) -> int {
    FIXED_STATE_LEN + fifo_size(s.skip(FIXED_STATE_LEN as int))
}

/// Whether `s` starts with an encoding that a well-formed unit can have:
/// the whole fixed part, a playing bank of 0 or 1, and both FIFOs.
pub open spec fn apu_fits(s: Seq<u8>) -> bool {
    &&& s.len() >= FIXED_STATE_LEN
    &&& u32_at(s, 65) <= 1
    &&& fifo_fits(s.skip(FIXED_STATE_LEN as int))
    &&& fifo_fits(s.skip(second_fifo_at(s)))
}

/// Bytes that the unit encoded at the front of `s` takes up.
pub open spec fn apu_size(s: Seq<u8>) -> int {
    second_fifo_at(s) + fifo_size(s.skip(second_fifo_at(s)))
}

/// The unit `a` with every saved field taken from the encoding `s`.
pub open spec fn apu_from(s: Seq<u8>, a: ApuView) -> ApuView {
    ApuView {
        on: s[0] != 0,
        seq_timer: u32_at(s, 1),
        seq_step: s[5],
        prescale: u32_at(s, 6),
        ch1: pulse_from(s.subrange(10, 31)),
        ch2: pulse_from(s.subrange(31, 52)),
        ch3: wave_from(s.subrange(52, 65)),
        play_bank: u32_at(s, 65) as u8,
        ch4: noise_from(s.subrange(69, 83)),
        soundcnt_l: u16_at(s, 83),
        soundcnt_h: u16_at(s, 85),
        wave_ram: s.subrange(87, 119),
        fifo_a: fifo_from(s.skip(FIXED_STATE_LEN as int)),
        fifo_b: fifo_from(s.skip(second_fifo_at(s))),
        ..a
    }
}

/// Restoring the sound unit from its own encoding gives back every register,
/// counter, wave sample and queued FIFO byte, and reads exactly the bytes
/// written; the host-side sample plumbing of the unit being restored is kept.
pub proof fn lemma_apu_round_trip(a: ApuView, target: ApuView, rest: Seq<u8>)
    requires
        a.wave_ram.len() == 32,
        a.play_bank <= 1,
        a.fifo_a.bytes.len() <= u32::MAX,
        a.fifo_b.bytes.len() <= u32::MAX,
    ensures
        apu_fits(apu_bytes(a) + rest),
        apu_size(apu_bytes(a) + rest) == apu_bytes(a).len(),
        apu_from(apu_bytes(a) + rest, target) == (ApuView {
            sample_acc: target.sample_acc,
            sample_rate: target.sample_rate,
            samples: target.samples,
            ..a
        }),
{
    lemma_auto_spec_u16_to_from_le_bytes();
    lemma_auto_spec_u32_to_from_le_bytes();
    lemma_pulse_round_trip(a.ch1);
    lemma_pulse_round_trip(a.ch2);
    lemma_wave_round_trip(a.ch3);
    lemma_noise_round_trip(a.ch4);
    let fixed = seq![bool_byte(a.on)]
        + spec_u32_to_le_bytes(a.seq_timer)
        + seq![a.seq_step]
        + spec_u32_to_le_bytes(a.prescale)
        + pulse_bytes(a.ch1)
        + pulse_bytes(a.ch2)
        + wave_bytes(a.ch3)
        + spec_u32_to_le_bytes(a.play_bank as u32)
        + noise_bytes(a.ch4)
        + spec_u16_to_le_bytes(a.soundcnt_l)
        + spec_u16_to_le_bytes(a.soundcnt_h)
        + a.wave_ram;
    assert(fixed.len() == FIXED_STATE_LEN);
    let fa = fifo_bytes(a.fifo_a);
    let fb = fifo_bytes(a.fifo_b);
    let s = apu_bytes(a) + rest;
    assert(apu_bytes(a) == fixed + fa + fb);
    assert(s =~= fixed + (fa + (fb + rest)));
    assert(s.skip(FIXED_STATE_LEN as int) =~= fa + (fb + rest));
    lemma_fifo_round_trip(a.fifo_a, fb + rest);
    assert(s.skip(FIXED_STATE_LEN as int).skip(fa.len() as int) =~= fb + rest);
    assert(second_fifo_at(s) == FIXED_STATE_LEN + fa.len());
    assert(s.skip(second_fifo_at(s)) =~= fb + rest);
    lemma_fifo_round_trip(a.fifo_b, rest);
    assert(s.subrange(1, 5) =~= spec_u32_to_le_bytes(a.seq_timer));
    assert(s.subrange(6, 10) =~= spec_u32_to_le_bytes(a.prescale));
    assert(s.subrange(10, 31) =~= pulse_bytes(a.ch1));
    assert(s.subrange(31, 52) =~= pulse_bytes(a.ch2));
    assert(s.subrange(52, 65) =~= wave_bytes(a.ch3));
    assert(s.subrange(65, 69) =~= spec_u32_to_le_bytes(a.play_bank as u32));
    assert(s.subrange(69, 83) =~= noise_bytes(a.ch4));
    assert(s.subrange(83, 85) =~= spec_u16_to_le_bytes(a.soundcnt_l));
    assert(s.subrange(85, 87) =~= spec_u16_to_le_bytes(a.soundcnt_h));
    assert(s.subrange(87, 119) =~= a.wave_ram);
}

impl Apu {
    pub fn serialize(&self, w: &mut Writer)
        ensures
            final(w).buf@ == old(w).buf@ + apu_bytes(self@),
    {
        proof {
            lemma_auto_spec_u16_to_from_le_bytes();
            lemma_auto_spec_u32_to_from_le_bytes();
            lemma_pulse_round_trip(self.ch1);
            lemma_pulse_round_trip(self.ch2);
            lemma_wave_round_trip(self.ch3);
            lemma_noise_round_trip(self.ch4);
        }
        w.put_bool(self.on);
        w.put_u32(self.seq_timer);
        w.put_u8(self.seq_step);
        w.put_u32(self.prescale);
        self.ch1.serialize(w);
        self.ch2.serialize(w);
        self.ch3.serialize(w);
        w.put_u32(self.play_bank as u32);
        self.ch4.serialize(w);
        w.put_u16(self.soundcnt_l);
        w.put_u16(self.soundcnt_h);
        w.put_bytes(self.wave_ram.as_slice());
        self.fifo_a.serialize(w);
        self.fifo_b.serialize(w);
        assert(w.buf@ =~= old(w).buf@ + apu_bytes(self@));
    }

    /// Restores every saved field. An input that is short, or that names a
    /// playing bank past the second, is refused as corrupt and changes
    /// nothing.
    pub fn deserialize(&mut self, r: &mut Reader) -> (res: Result<(), StateError>)
        ensures
            ({
                let s = old(r).rest();
                &&& apu_fits(s) ==> {
                    &&& res is Ok
                    &&& final(self)@ == apu_from(s, old(self)@)
                    &&& final(r).rest() == s.skip(apu_size(s))
                }
                &&& !apu_fits(s) ==> {
                    &&& res == Err::<(), StateError>(StateError::Truncated)
                    &&& final(self)@ == old(self)@
                }
            }),
    {
        let ghost s = r.rest();
        let b = r.get_bytes(FIXED_STATE_LEN)?;
        let bank = read_u32_at(b, 65);
        proof {
            assert(s.take(FIXED_STATE_LEN as int).subrange(65, 69) =~= s.subrange(65, 69));
        }
        if bank > 1 {
            return Err(StateError::Truncated);
        }
        let ghost s1 = r.rest();
        let mut fifo_a = Fifo::new();
        fifo_a.deserialize(r)?;
        let ghost s2 = r.rest();
        proof {
            assert(s2 =~= s.skip(second_fifo_at(s)));
        }
        let mut fifo_b = Fifo::new();
        fifo_b.deserialize(r)?;
        self.on = b[0] != 0;
        self.seq_timer = read_u32_at(b, 1);
        self.seq_step = b[5];
        self.prescale = read_u32_at(b, 6);
        self.ch1 = pulse_decode(vstd::slice::slice_subrange(b, 10, 31));
        self.ch2 = pulse_decode(vstd::slice::slice_subrange(b, 31, 52));
        self.ch3 = wave_decode(vstd::slice::slice_subrange(b, 52, 65));
        self.play_bank = bank as u8;
        self.ch4 = noise_decode(vstd::slice::slice_subrange(b, 69, 83));
        self.soundcnt_l = read_u16_at(b, 83);
        self.soundcnt_h = read_u16_at(b, 85);
        self.wave_ram = copy_of(vstd::slice::slice_subrange(b, 87, 119));
        self.fifo_a = fifo_a;
        self.fifo_b = fifo_b;
        proof {
            let t = s.take(FIXED_STATE_LEN as int);
            assert(t.subrange(1, 5) =~= s.subrange(1, 5));
            assert(t.subrange(6, 10) =~= s.subrange(6, 10));
            assert(t.subrange(10, 31) =~= s.subrange(10, 31));
            assert(t.subrange(31, 52) =~= s.subrange(31, 52));
            assert(t.subrange(52, 65) =~= s.subrange(52, 65));
            assert(t.subrange(69, 83) =~= s.subrange(69, 83));
            assert(t.subrange(83, 85) =~= s.subrange(83, 85));
            assert(t.subrange(85, 87) =~= s.subrange(85, 87));
            assert(t.subrange(87, 119) =~= s.subrange(87, 119));
            assert(r.rest() =~= s.skip(apu_size(s)));
        }
        Ok(())
    }
}

} // verus!
