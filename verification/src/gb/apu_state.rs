//! Save-state layout of the sound unit: each channel's registers and counters
//! in a fixed little-endian order, then the mixer registers and wave RAM.
//! The host-side sample plumbing (rate, accumulator, pending samples) is not
//! part of a state.
use vstd::prelude::*;
use vstd::bytes::{
    spec_u16_to_le_bytes, spec_u32_to_le_bytes, lemma_auto_spec_u16_to_from_le_bytes,
    lemma_auto_spec_u32_to_from_le_bytes,
};
use crate::bits::lemma_i32_as_u32;
use crate::bytes::copy_of;
use crate::gb::apu::{Apu, ApuView, Noise, Pulse, WaveCh};
use crate::state::{Reader, StateError, Writer, bool_byte, read_u16_at, read_u32_at, u16_at, u32_at};

verus! {

/// Bytes in the encoding of a pulse channel.
pub const PULSE_STATE_LEN: usize = 21;
/// Bytes in the encoding of the wave channel.
pub const WAVE_STATE_LEN: usize = 13;
/// Bytes in the encoding of the noise channel.
pub const NOISE_STATE_LEN: usize = 14;
/// Bytes in the encoding of the whole sound unit.
pub const APU_STATE_LEN: usize = 93;

// ------------------------------------------------------------------ pulse

pub open spec fn pulse_bytes(p: Pulse) -> Seq<u8> {
    seq![bool_byte(p.has_sweep), bool_byte(p.enabled), p.nrx0, p.nrx1, p.nrx2]
        + spec_u16_to_le_bytes(p.freq)
        + seq![bool_byte(p.length_enable), p.duty_pos]
        + spec_u32_to_le_bytes(p.timer as u32)
        + spec_u16_to_le_bytes(p.length)
        + seq![p.env_vol, p.env_timer, p.sweep_timer]
        + spec_u16_to_le_bytes(p.sweep_shadow)
        + seq![bool_byte(p.sweep_enabled)]
}

pub open spec fn pulse_from(s: Seq<u8>) -> Pulse {
    Pulse {
        has_sweep: s[0] != 0,
        enabled: s[1] != 0,
        nrx0: s[2],
        nrx1: s[3],
        nrx2: s[4],
        freq: u16_at(s, 5),
        length_enable: s[7] != 0,
        duty_pos: s[8],
        timer: u32_at(s, 9) as i32,
        length: u16_at(s, 13),
        env_vol: s[15],
        env_timer: s[16],
        sweep_timer: s[17],
        sweep_shadow: u16_at(s, 18),
        sweep_enabled: s[20] != 0,
    }
}

pub(crate) fn pulse_decode(b: &[u8]) -> (p: Pulse)
    requires
        b@.len() >= PULSE_STATE_LEN,
    ensures
        p == pulse_from(b@),
{
    Pulse {
        has_sweep: b[0] != 0,
        enabled: b[1] != 0,
        nrx0: b[2],
        nrx1: b[3],
        nrx2: b[4],
        freq: read_u16_at(b, 5),
        length_enable: b[7] != 0,
        duty_pos: b[8],
        timer: read_u32_at(b, 9) as i32,
        length: read_u16_at(b, 13),
        env_vol: b[15],
        env_timer: b[16],
        sweep_timer: b[17],
        sweep_shadow: read_u16_at(b, 18),
        sweep_enabled: b[20] != 0,
    }
}

/// A pulse channel read back from its encoding is the channel that was written.
pub proof fn lemma_pulse_round_trip(p: Pulse)
    ensures
        pulse_bytes(p).len() == PULSE_STATE_LEN,
        pulse_from(pulse_bytes(p)) == p,
{
    lemma_auto_spec_u16_to_from_le_bytes();
    lemma_auto_spec_u32_to_from_le_bytes();
    lemma_i32_as_u32(p.timer);
    let s = pulse_bytes(p);
    assert(s.subrange(5, 7) =~= spec_u16_to_le_bytes(p.freq));
    assert(s.subrange(9, 13) =~= spec_u32_to_le_bytes(p.timer as u32));
    assert(s.subrange(13, 15) =~= spec_u16_to_le_bytes(p.length));
    assert(s.subrange(18, 20) =~= spec_u16_to_le_bytes(p.sweep_shadow));
}

impl Pulse {
    pub fn serialize(&self, w: &mut Writer)
        ensures
            final(w).buf@ == old(w).buf@ + pulse_bytes(*self),
    {
        proof {
            lemma_auto_spec_u16_to_from_le_bytes();
            lemma_auto_spec_u32_to_from_le_bytes();
        }
        w.put_bool(self.has_sweep);
        w.put_bool(self.enabled);
        w.put_u8(self.nrx0);
        w.put_u8(self.nrx1);
        w.put_u8(self.nrx2);
        w.put_u16(self.freq);
        w.put_bool(self.length_enable);
        w.put_u8(self.duty_pos);
        w.put_u32(self.timer as u32);
        w.put_u16(self.length);
        w.put_u8(self.env_vol);
        w.put_u8(self.env_timer);
        w.put_u8(self.sweep_timer);
        w.put_u16(self.sweep_shadow);
        w.put_bool(self.sweep_enabled);
        assert(w.buf@ =~= old(w).buf@ + pulse_bytes(*self));
    }

    /// Restores the channel; a short input is refused and changes nothing.
    pub fn deserialize(&mut self, r: &mut Reader) -> (res: Result<(), StateError>)
        ensures
            ({
                let s = old(r).rest();
                &&& s.len() >= PULSE_STATE_LEN ==> {
                    &&& res is Ok
                    &&& *final(self) == pulse_from(s.take(PULSE_STATE_LEN as int))
                    &&& final(r).rest() == s.skip(PULSE_STATE_LEN as int)
                }
                &&& s.len() < PULSE_STATE_LEN ==> {
                    &&& res == Err::<(), StateError>(StateError::Truncated)
                    &&& *final(self) == *old(self)
                    &&& final(r).rest() == s
                }
            }),
    {
        let b = r.get_bytes(PULSE_STATE_LEN)?;
        *self = pulse_decode(b);
        Ok(())
    }
}

// ------------------------------------------------------------------ wave

pub open spec fn wave_bytes(c: WaveCh) -> Seq<u8> {
    seq![bool_byte(c.enabled), bool_byte(c.dac), c.nr32]
        + spec_u16_to_le_bytes(c.freq)
        + seq![bool_byte(c.length_enable)]
        + spec_u16_to_le_bytes(c.length)
        + spec_u32_to_le_bytes(c.timer as u32)
        + seq![c.pos]
}

pub open spec fn wave_from(s: Seq<u8>) -> WaveCh {
    WaveCh {
        enabled: s[0] != 0,
        dac: s[1] != 0,
        nr32: s[2],
        freq: u16_at(s, 3),
        length_enable: s[5] != 0,
        length: u16_at(s, 6),
        timer: u32_at(s, 8) as i32,
        pos: s[12],
    }
}

pub(crate) fn wave_decode(b: &[u8]) -> (c: WaveCh)
    requires
        b@.len() >= WAVE_STATE_LEN,
    ensures
        c == wave_from(b@),
{
    WaveCh {
        enabled: b[0] != 0,
        dac: b[1] != 0,
        nr32: b[2],
        freq: read_u16_at(b, 3),
        length_enable: b[5] != 0,
        length: read_u16_at(b, 6),
        timer: read_u32_at(b, 8) as i32,
        pos: b[12],
    }
}

/// The wave channel read back from its encoding is the channel that was written.
pub proof fn lemma_wave_round_trip(c: WaveCh)
    ensures
        wave_bytes(c).len() == WAVE_STATE_LEN,
        wave_from(wave_bytes(c)) == c,
{
    lemma_auto_spec_u16_to_from_le_bytes();
    lemma_auto_spec_u32_to_from_le_bytes();
    lemma_i32_as_u32(c.timer);
    let s = wave_bytes(c);
    assert(s.subrange(3, 5) =~= spec_u16_to_le_bytes(c.freq));
    assert(s.subrange(6, 8) =~= spec_u16_to_le_bytes(c.length));
    assert(s.subrange(8, 12) =~= spec_u32_to_le_bytes(c.timer as u32));
}

impl WaveCh {
    pub fn serialize(&self, w: &mut Writer)
        ensures
            final(w).buf@ == old(w).buf@ + wave_bytes(*self),
    {
        proof {
            lemma_auto_spec_u16_to_from_le_bytes();
            lemma_auto_spec_u32_to_from_le_bytes();
        }
        w.put_bool(self.enabled);
        w.put_bool(self.dac);
        w.put_u8(self.nr32);
        w.put_u16(self.freq);
        w.put_bool(self.length_enable);
        w.put_u16(self.length);
        w.put_u32(self.timer as u32);
        w.put_u8(self.pos);
        assert(w.buf@ =~= old(w).buf@ + wave_bytes(*self));
    }

    /// Restores the channel; a short input is refused and changes nothing.
    pub fn deserialize(&mut self, r: &mut Reader) -> (res: Result<(), StateError>)
        ensures
            ({
                let s = old(r).rest();
                &&& s.len() >= WAVE_STATE_LEN ==> {
                    &&& res is Ok
                    &&& *final(self) == wave_from(s.take(WAVE_STATE_LEN as int))
                    &&& final(r).rest() == s.skip(WAVE_STATE_LEN as int)
                }
                &&& s.len() < WAVE_STATE_LEN ==> {
                    &&& res == Err::<(), StateError>(StateError::Truncated)
                    &&& *final(self) == *old(self)
                    &&& final(r).rest() == s
                }
            }),
    {
        let b = r.get_bytes(WAVE_STATE_LEN)?;
        *self = wave_decode(b);
        Ok(())
    }
}

// ------------------------------------------------------------------ noise

pub open spec fn noise_bytes(n: Noise) -> Seq<u8> {
    seq![bool_byte(n.enabled), n.nr42, n.nr43, bool_byte(n.length_enable)]
        + spec_u16_to_le_bytes(n.length)
        + spec_u32_to_le_bytes(n.timer as u32)
        + spec_u16_to_le_bytes(n.lfsr)
        + seq![n.env_vol, n.env_timer]
}

pub open spec fn noise_from(s: Seq<u8>) -> Noise {
    Noise {
        enabled: s[0] != 0,
        nr42: s[1],
        nr43: s[2],
        length_enable: s[3] != 0,
        length: u16_at(s, 4),
        timer: u32_at(s, 6) as i32,
        lfsr: u16_at(s, 10),
        env_vol: s[12],
        env_timer: s[13],
    }
}

pub(crate) fn noise_decode(b: &[u8]) -> (n: Noise)
    requires
        b@.len() >= NOISE_STATE_LEN,
    ensures
        n == noise_from(b@),
{
    Noise {
        enabled: b[0] != 0,
        nr42: b[1],
        nr43: b[2],
        length_enable: b[3] != 0,
        length: read_u16_at(b, 4),
        timer: read_u32_at(b, 6) as i32,
        lfsr: read_u16_at(b, 10),
        env_vol: b[12],
        env_timer: b[13],
    }
}

/// The noise channel read back from its encoding is the channel that was written.
pub proof fn lemma_noise_round_trip(n: Noise)
    ensures
        noise_bytes(n).len() == NOISE_STATE_LEN,
        noise_from(noise_bytes(n)) == n,
{
    lemma_auto_spec_u16_to_from_le_bytes();
    lemma_auto_spec_u32_to_from_le_bytes();
    lemma_i32_as_u32(n.timer);
    let s = noise_bytes(n);
    assert(s.subrange(4, 6) =~= spec_u16_to_le_bytes(n.length));
    assert(s.subrange(6, 10) =~= spec_u32_to_le_bytes(n.timer as u32));
    assert(s.subrange(10, 12) =~= spec_u16_to_le_bytes(n.lfsr));
}

impl Noise {
    pub fn serialize(&self, w: &mut Writer)
        ensures
            final(w).buf@ == old(w).buf@ + noise_bytes(*self),
    {
        proof {
            lemma_auto_spec_u16_to_from_le_bytes();
            lemma_auto_spec_u32_to_from_le_bytes();
        }
        w.put_bool(self.enabled);
        w.put_u8(self.nr42);
        w.put_u8(self.nr43);
        w.put_bool(self.length_enable);
        w.put_u16(self.length);
        w.put_u32(self.timer as u32);
        w.put_u16(self.lfsr);
        w.put_u8(self.env_vol);
        w.put_u8(self.env_timer);
        assert(w.buf@ =~= old(w).buf@ + noise_bytes(*self));
    }

    /// Restores the channel; a short input is refused and changes nothing.
    pub fn deserialize(&mut self, r: &mut Reader) -> (res: Result<(), StateError>)
        ensures
            ({
                let s = old(r).rest();
                &&& s.len() >= NOISE_STATE_LEN ==> {
                    &&& res is Ok
                    &&& *final(self) == noise_from(s.take(NOISE_STATE_LEN as int))
                    &&& final(r).rest() == s.skip(NOISE_STATE_LEN as int)
                }
                &&& s.len() < NOISE_STATE_LEN ==> {
                    &&& res == Err::<(), StateError>(StateError::Truncated)
                    &&& *final(self) == *old(self)
                    &&& final(r).rest() == s
                }
            }),
    {
        let b = r.get_bytes(NOISE_STATE_LEN)?;
        *self = noise_decode(b);
        Ok(())
    }
}

// ------------------------------------------------------------------ the unit

pub open spec fn apu_bytes(a: ApuView) -> Seq<u8> {
    seq![bool_byte(a.on)]
        + spec_u32_to_le_bytes(a.seq_timer)
        + seq![a.seq_step]
        + pulse_bytes(a.ch1)
        + pulse_bytes(a.ch2)
        + wave_bytes(a.ch3)
        + noise_bytes(a.ch4)
        + seq![a.nr50, a.nr51]
        + a.wave_ram
}

/// The unit `a` with every saved field taken from the encoding `s`.
pub open spec fn apu_from(s: Seq<u8>, a: ApuView) -> ApuView {
    ApuView {
        on: s[0] != 0,
        seq_timer: u32_at(s, 1),
        seq_step: s[5],
        ch1: pulse_from(s.subrange(6, 27)),
        ch2: pulse_from(s.subrange(27, 48)),
        ch3: wave_from(s.subrange(48, 61)),
        ch4: noise_from(s.subrange(61, 75)),
        nr50: s[75],
        nr51: s[76],
        wave_ram: s.subrange(77, 93),
        ..a
    }
}

/// Restoring the sound unit from its own encoding gives back every register,
/// counter and wave sample; the host-side sample plumbing of the unit being
/// restored is kept.
pub proof fn lemma_apu_round_trip(a: ApuView, target: ApuView)
    requires
        a.wave_ram.len() == 16,
    ensures
        apu_bytes(a).len() == APU_STATE_LEN,
        apu_from(apu_bytes(a), target) == (ApuView {
            sample_acc: target.sample_acc,
            sample_rate: target.sample_rate,
            samples: target.samples,
            ..a
        }),
{
    lemma_auto_spec_u32_to_from_le_bytes();
    lemma_pulse_round_trip(a.ch1);
    lemma_pulse_round_trip(a.ch2);
    lemma_wave_round_trip(a.ch3);
    lemma_noise_round_trip(a.ch4);
    let s = apu_bytes(a);
    assert(s.subrange(1, 5) =~= spec_u32_to_le_bytes(a.seq_timer));
    assert(s.subrange(6, 27) =~= pulse_bytes(a.ch1));
    assert(s.subrange(27, 48) =~= pulse_bytes(a.ch2));
    assert(s.subrange(48, 61) =~= wave_bytes(a.ch3));
    assert(s.subrange(61, 75) =~= noise_bytes(a.ch4));
    assert(s.subrange(77, 93) =~= a.wave_ram);
}

impl Apu {
    pub fn serialize(&self, w: &mut Writer)
        ensures
            final(w).buf@ == old(w).buf@ + apu_bytes(self@),
    {
        proof {
            self.lemma_view_fields();
            lemma_auto_spec_u32_to_from_le_bytes();
            lemma_pulse_round_trip(self.ch1);
            lemma_pulse_round_trip(self.ch2);
            lemma_wave_round_trip(self.ch3);
            lemma_noise_round_trip(self.ch4);
        }
        w.put_bool(self.on);
        w.put_u32(self.seq_timer);
        w.put_u8(self.seq_step);
        self.ch1.serialize(w);
        self.ch2.serialize(w);
        self.ch3.serialize(w);
        self.ch4.serialize(w);
        w.put_u8(self.nr50);
        w.put_u8(self.nr51);
        w.put_bytes(self.wave_ram.as_slice());
        assert(w.buf@ =~= old(w).buf@ + apu_bytes(self@));
    }

    /// Restores every saved field; a short input is refused and changes nothing.
    pub fn deserialize(&mut self, r: &mut Reader) -> (res: Result<(), StateError>)
        ensures
            ({
                let s = old(r).rest();
                &&& s.len() >= APU_STATE_LEN ==> {
                    &&& res is Ok
                    &&& final(self)@ == apu_from(s, old(self)@)
                    &&& final(r).rest() == s.skip(APU_STATE_LEN as int)
                }
                &&& s.len() < APU_STATE_LEN ==> {
                    &&& res == Err::<(), StateError>(StateError::Truncated)
                    &&& final(self)@ == old(self)@
                    &&& final(r).rest() == s
                }
            }),
    {
        let ghost s = r.rest();
        proof {
            self.lemma_view_fields();
        }
        let b = r.get_bytes(APU_STATE_LEN)?;
        self.on = b[0] != 0;
        self.seq_timer = read_u32_at(b, 1);
        self.seq_step = b[5];
        self.ch1 = pulse_decode(vstd::slice::slice_subrange(b, 6, 27));
        self.ch2 = pulse_decode(vstd::slice::slice_subrange(b, 27, 48));
        self.ch3 = wave_decode(vstd::slice::slice_subrange(b, 48, 61));
        self.ch4 = noise_decode(vstd::slice::slice_subrange(b, 61, 75));
        self.nr50 = b[75];
        self.nr51 = b[76];
        self.wave_ram = copy_of(vstd::slice::slice_subrange(b, 77, 93));
        proof {
            let t = s.take(APU_STATE_LEN as int);
            assert(t.subrange(1, 5) =~= s.subrange(1, 5));
            assert(t.subrange(6, 27) =~= s.subrange(6, 27));
            assert(t.subrange(27, 48) =~= s.subrange(27, 48));
            assert(t.subrange(48, 61) =~= s.subrange(48, 61));
            assert(t.subrange(61, 75) =~= s.subrange(61, 75));
            assert(t.subrange(77, 93) =~= s.subrange(77, 93));
            self.lemma_view_fields();
        }
        Ok(())
    }
}

} // verus!
