//! GBA cartridge EEPROM: a bit-serial save reached only through DMA. Each
//! DMA halfword carries one bit (bit 0). The write-direction DMA length
//! selects the address width: 9/73 bits mean 6-bit addresses (512 B),
//! 17/81 mean 14-bit addresses (8 KiB). A read reply is 68 bits: 4 dummy
//! bits then the 64-bit word, most significant bit first.
use vstd::prelude::*;
use crate::bits::lemma_u16_bits;
use crate::bytes::{copy_prefix, filled, overlay};

verus! {

pub const MAX: usize = 0x2000;

#[derive(Clone, Copy, PartialEq, Eq, Debug, Structural)]
pub enum EepromMode {
    Idle,
    /// Accumulating a command bitstream (DMA to the chip).
    Receiving,
    /// Emitting a read reply (DMA from the chip).
    Reading,
}

pub struct EepromView {
    pub data: Seq<u8>,
    pub addr_bits: u8,
    pub mode: EepromMode,
    pub rx: Seq<u8>,
    pub expected: u32,
    pub read_word: u64,
    pub read_pos: u32,
}

pub open spec fn eeprom_wf(v: EepromView) -> bool {
    &&& v.data.len() == MAX
    &&& (v.addr_bits == 6 || v.addr_bits == 14)
    &&& forall|i: int| 0 <= i < v.rx.len() ==> v.rx[i] <= 1
    &&& v.mode == EepromMode::Receiving ==> v.rx.len() < v.expected || v.rx.len() == 0
}

/// Number of 64-bit words: 64 (512 B) or 1024 (8 KiB).
pub open spec fn word_count(addr_bits: u8) -> nat {
    if addr_bits == 6 { 64 } else { 1024 }
}

/// A bit string (most significant first) read as a number, shifting into
/// a 64-bit register.
pub open spec fn bits_value(s: Seq<u8>) -> u64
    decreases s.len(),
{
    if s.len() == 0 {
        0
    } else {
        (bits_value(s.drop_last()) << 1u64) | (s.last() as u64)
    }
}

/// Bytes (most significant first) read as a big-endian 64-bit number.
pub open spec fn be_value(s: Seq<u8>) -> u64
    decreases s.len(),
{
    if s.len() == 0 {
        0
    } else {
        (be_value(s.drop_last()) << 8u64) | (s.last() as u64)
    }
}

/// The eight bytes of a word, most significant first.
pub open spec fn word_bytes(w: u64) -> Seq<u8> {
    Seq::new(8, |i: int| (w >> ((56 - i * 8) as u64)) as u8)
}

/// Whether the received command is complete enough to act on.
pub open spec fn command_fits(v: EepromView) -> bool {
    let a = v.addr_bits as int;
    v.rx.len() >= 2 ==> v.rx.len() >= 2 + a && (v.rx[0] == 1 && v.rx[1] == 0 ==> v.rx.len() >= 2 + a
        + 64)
}

/// The word a command addresses.
pub open spec fn command_word(v: EepromView) -> int {
    let a = v.addr_bits as int;
    (bits_value(v.rx.subrange(2, 2 + a)) & ((word_count(v.addr_bits) - 1) as u64)) as int
}

/// The effect of a complete command: a read request latches the addressed
/// word for the reply; a write stores the 64 data bits.
pub open spec fn executed(v: EepromView) -> EepromView {
    if v.rx.len() < 2 {
        v
    } else {
        let a = v.addr_bits as int;
        let base = command_word(v) * 8;
        if v.rx[0] == 1 && v.rx[1] == 1 {
            EepromView {
                read_word: be_value(v.data.subrange(base, base + 8)),
                read_pos: 0,
                ..v
            }
        } else if v.rx[0] == 1 && v.rx[1] == 0 {
            let w = bits_value(v.rx.subrange(2 + a, 2 + a + 64));
            EepromView {
                data: v.data.subrange(0, base) + word_bytes(w) + v.data.subrange(base + 8, MAX as int),
                ..v
            }
        } else {
            v
        }
    }
}

pub open spec fn begun(v: EepromView, count: u32, to_eeprom: bool) -> EepromView {
    if to_eeprom {
        EepromView {
            addr_bits: if count == 17 || count == 81 {
                14
            } else if count == 9 || count == 73 {
                6
            } else {
                v.addr_bits
            },
            rx: Seq::empty(),
            expected: count,
            mode: EepromMode::Receiving,
            ..v
        }
    } else {
        EepromView { read_pos: 0, mode: EepromMode::Reading, ..v }
    }
}

pub open spec fn bit_written(v: EepromView, value: u16) -> EepromView {
    if v.mode != EepromMode::Receiving {
        v
    } else {
        let r = EepromView { rx: v.rx.push((value & 1) as u8), ..v };
        if r.rx.len() >= v.expected {
            EepromView { mode: EepromMode::Idle, ..executed(r) }
        } else {
            r
        }
    }
}

/// The reply bit at position `pos`: four zero lead-in bits, then the word
/// most significant bit first (the last bit repeats past the end).
pub open spec fn reply_bit(word: u64, pos: u32) -> u16 {
    if pos < 4 {
        0
    } else {
        let k = if pos - 4 < 63 { pos - 4 } else { 63 };
        ((word >> ((63 - k) as u64)) & 1) as u16
    }
}

pub struct Eeprom {
    data: Vec<u8>,
    addr_bits: u8,
    mode: EepromMode,
    rx: Vec<u8>,
    expected: u32,
    read_word: u64,
    read_pos: u32,
}

impl View for Eeprom {
    type V = EepromView;

    closed spec fn view(&self) -> EepromView {
        EepromView {
            data: self.data@,
            addr_bits: self.addr_bits,
            mode: self.mode,
            rx: self.rx@,
            expected: self.expected,
            read_word: self.read_word,
            read_pos: self.read_pos,
        }
    }
}

impl Eeprom {
    pub fn new() -> (e: Self)
        ensures
            eeprom_wf(e@),
            e@ == (EepromView {
                data: Seq::new(MAX as nat, |_i: int| 0xFFu8),
                addr_bits: 6,
                mode: EepromMode::Idle,
                rx: Seq::empty(),
                expected: 0,
                read_word: 0,
                read_pos: 0,
            }),
    {
        Eeprom {
            data: filled(MAX, 0xFF),
            addr_bits: 6,
            mode: EepromMode::Idle,
            rx: Vec::new(),
            expected: 0,
            read_word: 0,
            read_pos: 0,
        }
    }

    /// The address width the chip has settled on (6 or 14 bits).
    pub fn address_bits(&self) -> (a: u8)
        ensures
            a == self@.addr_bits,
    {
        self.addr_bits
    }

    fn words(&self) -> (n: usize)
        ensures
            n == word_count(self@.addr_bits),
    {
        if self.addr_bits == 6 { 64 } else { 1024 }
    }

    /// Detected save size in bytes (512 or 8192).
    fn size(&self) -> (n: usize)
        ensures
            n == word_count(self@.addr_bits) * 8,
    {
        self.words() * 8
    }

    /// A DMA touching the EEPROM is starting; `to_eeprom` is the command
    /// direction, otherwise it is the read reply.
    pub fn begin(&mut self, count: u32, to_eeprom: bool)
        requires
            eeprom_wf(old(self)@),
        ensures
            eeprom_wf(final(self)@),
            final(self)@ == begun(old(self)@, count, to_eeprom),
    {
        if to_eeprom {
            if count == 17 || count == 81 {
                self.addr_bits = 14;
            } else if count == 9 || count == 73 {
                self.addr_bits = 6;
            }
            self.rx.clear();
            self.expected = count;
            self.mode = EepromMode::Receiving;
        } else {
            self.read_pos = 0;
            self.mode = EepromMode::Reading;
        }
    }

    /// One bit from a DMA halfword written to the chip.
    pub fn write_bit(&mut self, value: u16)
        requires
            eeprom_wf(old(self)@),
            ({
                let v = old(self)@;
                let r = EepromView { rx: v.rx.push((value & 1) as u8), ..v };
                v.mode == EepromMode::Receiving && r.rx.len() >= v.expected ==> command_fits(r)
            }),
        ensures
            eeprom_wf(final(self)@),
            final(self)@ == bit_written(old(self)@, value),
    {
        if self.mode != EepromMode::Receiving {
            return;
        }
        proof { lemma_u16_bits(value); }
        self.rx.push((value & 1) as u8);
        if self.rx.len() as u32 >= self.expected {
            self.mode = EepromMode::Idle;
            self.execute();
        }
    }

    /// The next reply bit (in bit 0).
    pub fn read_bit(&mut self) -> (bit: u16)
        requires
            old(self)@.read_pos < u32::MAX,
        ensures
            bit == reply_bit(old(self)@.read_word, old(self)@.read_pos),
            final(self)@ == (EepromView { read_pos: (old(self)@.read_pos + 1) as u32, ..old(self)@ }),
    {
        let bit = if self.read_pos < 4 {
            0
        } else {
            let k = if self.read_pos - 4 < 63 { self.read_pos - 4 } else { 63 };
            ((self.read_word >> ((63 - k) as u64)) & 1) as u16
        };
        self.read_pos = self.read_pos + 1;
        bit
    }

    fn execute(&mut self)
        requires
            eeprom_wf(old(self)@),
            command_fits(old(self)@),
        ensures
            eeprom_wf(final(self)@),
            final(self)@ == executed(old(self)@),
    {
        let n = self.rx.len();
        if n < 2 {
            return;
        }
        let a = self.addr_bits as usize;
        let mut addr: u64 = 0;
        let mut i: usize = 2;
        while i < 2 + a
            invariant
                2 <= i <= 2 + a,
                a == old(self)@.addr_bits,
                n == self@.rx.len(),
                2 + a <= n,
                self@ == old(self)@,
                eeprom_wf(self@),
                addr == bits_value(self@.rx.subrange(2, i as int)),
            decreases 2 + a - i,
        {
            assert(self@.rx.subrange(2, i + 1).drop_last() =~= self@.rx.subrange(2, i as int));
            addr = (addr << 1u64) | (self.rx[i] as u64);
            i = i + 1;
        }
        let words = self.words();
        let masked = addr & (words as u64 - 1);
        proof { lemma_mask_below(addr); }
        let word = masked as usize;
        let base = word * 8;
        if self.rx[0] == 1 && self.rx[1] == 1 {
            let mut w: u64 = 0;
            let mut j: usize = 0;
            while j < 8
                invariant
                    j <= 8,
                    base + 8 <= MAX,
                    self@ == old(self)@,
                    eeprom_wf(self@),
                    w == be_value(self@.data.subrange(base as int, base + j)),
                decreases 8 - j,
            {
                assert(self@.data.subrange(base as int, base + j + 1).drop_last() =~= self@.data.subrange(
                    base as int,
                    base + j,
                ));
                w = (w << 8u64) | (self.data[base + j] as u64);
                j = j + 1;
            }
            self.read_word = w;
            self.read_pos = 0;
        } else if self.rx[0] == 1 && self.rx[1] == 0 {
            let mut w: u64 = 0;
            let mut k: usize = 2 + a;
            while k < 2 + a + 64
                invariant
                    2 + a <= k <= 2 + a + 64,
                    a == old(self)@.addr_bits,
                    2 + a + 64 <= n,
                    n == self@.rx.len(),
                    self@ == old(self)@,
                    eeprom_wf(self@),
                    w == bits_value(self@.rx.subrange(2 + a, k as int)),
                decreases 2 + a + 64 - k,
            {
                assert(self@.rx.subrange(2 + a, k + 1).drop_last() =~= self@.rx.subrange(
                    2 + a,
                    k as int,
                ));
                w = (w << 1u64) | (self.rx[k] as u64);
                k = k + 1;
            }
            let ghost d0 = self@.data;
            let mut j: usize = 0;
            while j < 8
                invariant
                    j <= 8,
                    base + 8 <= MAX,
                    self@ == (EepromView { data: self@.data, ..old(self)@ }),
                    self@.data.len() == MAX,
                    d0 == old(self)@.data,
                    forall|t: int| 0 <= t < base ==> self@.data[t] == d0[t],
                    forall|t: int| base + 8 <= t < MAX ==> self@.data[t] == d0[t],
                    forall|t: int| base <= t < base + j ==> self@.data[t] == word_bytes(w)[t - base],
                    forall|t: int| base + j <= t < base + 8 ==> self@.data[t] == d0[t],
                decreases 8 - j,
            {
                let byte = (w >> ((56 - j * 8) as u64)) as u8;
                self.data.set(base + j, byte);
                j = j + 1;
            }
            assert(self@.data =~= d0.subrange(0, base as int) + word_bytes(w) + d0.subrange(
                base + 8,
                MAX as int,
            ));
        }
    }

    /// The chip contents, sized to the detected capacity.
    pub fn backup(&self) -> (r: Vec<u8>)
        requires
            eeprom_wf(self@),
        ensures
            r@ == self@.data.take((word_count(self@.addr_bits) * 8) as int),
    {
        let n = self.size();
        let mut r: Vec<u8> = Vec::new();
        let mut i: usize = 0;
        while i < n
            invariant
                i <= n,
                n <= MAX,
                n == word_count(self@.addr_bits) * 8,
                eeprom_wf(self@),
                r@ == self@.data.take(i as int),
            decreases n - i,
        {
            r.push(self.data[i]);
            i = i + 1;
            assert(r@ =~= self@.data.take(i as int));
        }
        r
    }

    /// Restores from a save file; its length tells the chip size.
    pub fn restore(&mut self, data: &[u8])
        requires
            eeprom_wf(old(self)@),
        ensures
            eeprom_wf(final(self)@),
            final(self)@ == (EepromView {
                addr_bits: if data@.len() <= 512 { 6 } else { 14 },
                data: overlay(old(self)@.data, data@),
                ..old(self)@
            }),
    {
        self.addr_bits = if data.len() <= 512 { 6 } else { 14 };
        copy_prefix(&mut self.data, data);
    }
}

impl Default for Eeprom {
    fn default() -> (e: Self)
        ensures
            eeprom_wf(e@),
    {
        Eeprom::new()
    }
}

/// Masking with a word count minus one stays below the count.
pub proof fn lemma_mask_below(x: u64)
    by (bit_vector)
    ensures
        x & 63 < 64,
        x & 1023 < 1024,
{
}

/// The eight bytes of a word read back big-endian give the word.
pub proof fn lemma_word_bytes_round_trip(w: u64)
    ensures
        be_value(word_bytes(w)) == w,
{
    let s = word_bytes(w);
    assert(s.drop_last().drop_last().drop_last().drop_last().drop_last().drop_last().drop_last().drop_last().len() == 0);
    let b0 = (w >> 56u64) as u8;
    let b1 = (w >> 48u64) as u8;
    let b2 = (w >> 40u64) as u8;
    let b3 = (w >> 32u64) as u8;
    let b4 = (w >> 24u64) as u8;
    let b5 = (w >> 16u64) as u8;
    let b6 = (w >> 8u64) as u8;
    let b7 = (w >> 0u64) as u8;
    assert(s =~= seq![b0, b1, b2, b3, b4, b5, b6, b7]);
    reveal_with_fuel(be_value, 9);
    assert(seq![b0, b1, b2, b3, b4, b5, b6, b7].drop_last() =~= seq![b0, b1, b2, b3, b4, b5, b6]);
    assert(seq![b0, b1, b2, b3, b4, b5, b6].drop_last() =~= seq![b0, b1, b2, b3, b4, b5]);
    assert(seq![b0, b1, b2, b3, b4, b5].drop_last() =~= seq![b0, b1, b2, b3, b4]);
    assert(seq![b0, b1, b2, b3, b4].drop_last() =~= seq![b0, b1, b2, b3]);
    assert(seq![b0, b1, b2, b3].drop_last() =~= seq![b0, b1, b2]);
    assert(seq![b0, b1, b2].drop_last() =~= seq![b0, b1]);
    assert(seq![b0, b1].drop_last() =~= seq![b0]);
    assert(seq![b0].drop_last() =~= Seq::<u8>::empty());
    assert((((((((((((((((0u64 << 8u64) | b0 as u64) << 8u64) | b1 as u64) << 8u64) | b2 as u64)
        << 8u64) | b3 as u64) << 8u64) | b4 as u64) << 8u64) | b5 as u64) << 8u64) | b6 as u64)
        << 8u64) | b7 as u64 == w) by (bit_vector)
        requires
            b0 == (w >> 56u64) as u8,
            b1 == (w >> 48u64) as u8,
            b2 == (w >> 40u64) as u8,
            b3 == (w >> 32u64) as u8,
            b4 == (w >> 24u64) as u8,
            b5 == (w >> 16u64) as u8,
            b6 == (w >> 8u64) as u8,
            b7 == (w >> 0u64) as u8,
    ;
}

/// A word written at an address is what a later read request at the same
/// address latches for the reply.
pub proof fn lemma_write_then_read(v: EepromView, write: Seq<u8>, read: Seq<u8>)
    requires
        eeprom_wf(v),
        write.len() >= 2 + v.addr_bits + 64,
        read.len() >= 2 + v.addr_bits,
        write[0] == 1 && write[1] == 0,
        read[0] == 1 && read[1] == 1,
        write.subrange(2, 2 + v.addr_bits) == read.subrange(2, 2 + v.addr_bits),
    ensures
        ({
            let a = v.addr_bits as int;
            let stored = executed(EepromView { rx: write, ..v });
            executed(EepromView { rx: read, ..stored }).read_word == bits_value(
                write.subrange(2 + a, 2 + a + 64),
            )
        }),
{
    let a = v.addr_bits as int;
    let w = bits_value(write.subrange(2 + a, 2 + a + 64));
    let vw = EepromView { rx: write, ..v };
    let stored = executed(vw);
    let vr = EepromView { rx: read, ..stored };
    assert(command_word(vw) == command_word(vr));
    lemma_mask_below(bits_value(write.subrange(2, 2 + a)));
    let base = command_word(vw) * 8;
    assert(0 <= command_word(vw) < word_count(v.addr_bits));
    assert(stored.data.subrange(base, base + 8) =~= word_bytes(w));
    lemma_word_bytes_round_trip(w);
}

} // verus!
