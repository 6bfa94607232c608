//! Dependency-free serialization for save states. A `Writer` appends
//! little-endian bytes; a `Reader` pops them with bounds checks, so a
//! truncated or malformed input yields a `StateError`, never a panic.
use vstd::prelude::*;
use vstd::bytes::{
    spec_u16_to_le_bytes, spec_u16_from_le_bytes, spec_u32_to_le_bytes, spec_u32_from_le_bytes,
    spec_u64_to_le_bytes, spec_u64_from_le_bytes, u16_to_le_bytes, u32_to_le_bytes,
    u64_to_le_bytes, u16_from_le_bytes, u32_from_le_bytes, u64_from_le_bytes,
    lemma_auto_spec_u16_to_from_le_bytes, lemma_auto_spec_u32_to_from_le_bytes,
    lemma_auto_spec_u64_to_from_le_bytes,
};

verus! {

/// Save-state format version. Bump on any layout change; old states then reject.
pub const STATE_VERSION: u16 = 1;

#[derive(Debug, PartialEq, Eq, Clone, Copy)]
pub enum StateError {
    Truncated,
    BadMagic,
    BadVersion,
    WrongConsole,
    WrongRom,
}

impl StateError {
    /// Human-readable description of the error.
    pub fn message(&self) -> (s: &'static str)
        ensures
            *self == StateError::Truncated ==> s@ == "save state is truncated or corrupt"@,
            *self == StateError::BadMagic ==> s@ == "not a termboy save state"@,
            *self == StateError::BadVersion ==> s@ == "save state from an incompatible version"@,
            *self == StateError::WrongConsole ==> s@ == "save state is for a different console"@,
            *self == StateError::WrongRom ==> s@ == "save state is for a different game"@,
    {
        match self {
            StateError::Truncated => "save state is truncated or corrupt",
            StateError::BadMagic => "not a termboy save state",
            StateError::BadVersion => "save state from an incompatible version",
            StateError::WrongConsole => "save state is for a different console",
            StateError::WrongRom => "save state is for a different game",
        }
    }
}

/// The byte encoding of a boolean.
pub open spec fn bool_byte(v: bool) -> u8 {
    if v { 1u8 } else { 0u8 }
}

pub struct Writer {
    pub buf: Vec<u8>,
}

impl Writer {
    pub fn new() -> (w: Self)
        ensures
            w.buf@ == Seq::<u8>::empty(),
    {
        Writer { buf: Vec::new() }
    }

    pub fn put_u8(&mut self, v: u8)
        ensures
            final(self).buf@ == old(self).buf@.push(v),
    {
        self.buf.push(v);
    }

    pub fn put_u16(&mut self, v: u16)
        ensures
            final(self).buf@ == old(self).buf@ + spec_u16_to_le_bytes(v),
    {
        let mut b = u16_to_le_bytes(v);
        self.buf.append(&mut b);
    }

    pub fn put_u32(&mut self, v: u32)
        ensures
            final(self).buf@ == old(self).buf@ + spec_u32_to_le_bytes(v),
    {
        let mut b = u32_to_le_bytes(v);
        self.buf.append(&mut b);
    }

    pub fn put_u64(&mut self, v: u64)
        ensures
            final(self).buf@ == old(self).buf@ + spec_u64_to_le_bytes(v),
    {
        let mut b = u64_to_le_bytes(v);
        self.buf.append(&mut b);
    }

    pub fn put_bool(&mut self, v: bool)
        ensures
            final(self).buf@ == old(self).buf@.push(bool_byte(v)),
    {
        self.put_u8(if v { 1 } else { 0 });
    }

    pub fn put_bytes(&mut self, v: &[u8])
        ensures
            final(self).buf@ == old(self).buf@ + v@,
    {
        let ghost start = self.buf@;
        let mut i: usize = 0;
        while i < v.len()
            invariant
                i <= v@.len(),
                self.buf@ == start + v@.subrange(0, i as int),
            decreases v@.len() - i,
        {
            self.buf.push(v[i]);
            i = i + 1;
            assert(v@.subrange(0, i as int) == v@.subrange(0, i - 1).push(v@[i - 1]));
        }
        assert(v@.subrange(0, v@.len() as int) == v@);
    }
}

/// Copies a slice of exactly `N` bytes into an array.
#[verifier::external_body]
fn array_from_slice<const N: usize>(s: &[u8]) -> (a: [u8; N])
    requires
        s@.len() == N,
    ensures
        a@ == s@,
{
    <[u8; N]>::try_from(s).unwrap()
}

pub struct Reader<'a> {
    data: &'a [u8],
    pos: usize,
}

impl<'a> Reader<'a> {
    #[verifier::type_invariant]
    spec fn inv(self) -> bool {
        self.pos <= self.data@.len()
    }

    /// The bytes not read yet.
    pub closed spec fn rest(self) -> Seq<u8> {
        self.data@.subrange(self.pos as int, self.data@.len() as int)
    }

    pub fn new(data: &'a [u8]) -> (r: Self)
        ensures
            r.rest() == data@,
    {
        let r = Reader { data, pos: 0 };
        assert(r.rest() =~= data@);
        r
    }

    /// Pops `n` bytes, or fails with `Truncated` (leaving the reader as it
    /// was) when fewer than `n` remain.
    fn take(&mut self, n: usize) -> (res: Result<&'a [u8], StateError>)
        ensures
            n <= old(self).rest().len() ==> {
                &&& res matches Ok(s)
                &&& s@ == old(self).rest().take(n as int)
                &&& final(self).rest() == old(self).rest().skip(n as int)
            },
            n > old(self).rest().len() ==> {
                &&& res == Err::<&'a [u8], StateError>(StateError::Truncated)
                &&& final(self).rest() == old(self).rest()
            },
    {
        proof { use_type_invariant(&*self); }
        if n > self.data.len() - self.pos {
            return Err(StateError::Truncated);
        }
        let end = self.pos + n;
        let s = &self.data[self.pos..end];
        let ghost old_rest = self.rest();
        self.pos = end;
        assert(s@ =~= old_rest.take(n as int));
        assert(self.rest() =~= old_rest.skip(n as int));
        Ok(s)
    }

    pub fn get_u8(&mut self) -> (res: Result<u8, StateError>)
        ensures
            old(self).rest().len() >= 1 ==> res == Ok::<u8, StateError>(old(self).rest()[0])
                && final(self).rest() == old(self).rest().skip(1),
            old(self).rest().len() < 1 ==> res == Err::<u8, StateError>(StateError::Truncated)
                && final(self).rest() == old(self).rest(),
    {
        let s = self.take(1)?;
        Ok(s[0])
    }

    pub fn get_u16(&mut self) -> (res: Result<u16, StateError>)
        ensures
            old(self).rest().len() >= 2 ==> res == Ok::<u16, StateError>(
                spec_u16_from_le_bytes(old(self).rest().take(2)),
            ) && final(self).rest() == old(self).rest().skip(2),
            old(self).rest().len() < 2 ==> res == Err::<u16, StateError>(StateError::Truncated)
                && final(self).rest() == old(self).rest(),
    {
        let s = self.take(2)?;
        Ok(u16_from_le_bytes(s))
    }

    pub fn get_u32(&mut self) -> (res: Result<u32, StateError>)
        ensures
            old(self).rest().len() >= 4 ==> res == Ok::<u32, StateError>(
                spec_u32_from_le_bytes(old(self).rest().take(4)),
            ) && final(self).rest() == old(self).rest().skip(4),
            old(self).rest().len() < 4 ==> res == Err::<u32, StateError>(StateError::Truncated)
                && final(self).rest() == old(self).rest(),
    {
        let s = self.take(4)?;
        Ok(u32_from_le_bytes(s))
    }

    pub fn get_u64(&mut self) -> (res: Result<u64, StateError>)
        ensures
            old(self).rest().len() >= 8 ==> res == Ok::<u64, StateError>(
                spec_u64_from_le_bytes(old(self).rest().take(8)),
            ) && final(self).rest() == old(self).rest().skip(8),
            old(self).rest().len() < 8 ==> res == Err::<u64, StateError>(StateError::Truncated)
                && final(self).rest() == old(self).rest(),
    {
        let s = self.take(8)?;
        Ok(u64_from_le_bytes(s))
    }

    pub fn get_bool(&mut self) -> (res: Result<bool, StateError>)
        ensures
            old(self).rest().len() >= 1 ==> res == Ok::<bool, StateError>(old(self).rest()[0] != 0)
                && final(self).rest() == old(self).rest().skip(1),
            old(self).rest().len() < 1 ==> res == Err::<bool, StateError>(StateError::Truncated)
                && final(self).rest() == old(self).rest(),
    {
        let v = self.get_u8()?;
        Ok(v != 0)
    }

    pub fn get_bytes(&mut self, n: usize) -> (res: Result<&'a [u8], StateError>)
        ensures
            n <= old(self).rest().len() ==> {
                &&& res matches Ok(s)
                &&& s@ == old(self).rest().take(n as int)
                &&& final(self).rest() == old(self).rest().skip(n as int)
            },
            n > old(self).rest().len() ==> {
                &&& res == Err::<&'a [u8], StateError>(StateError::Truncated)
                &&& final(self).rest() == old(self).rest()
            },
    {
        self.take(n)
    }

    /// Reads `N` bytes into a fixed array.
    pub fn get_array<const N: usize>(&mut self) -> (res: Result<[u8; N], StateError>)
        ensures
            N <= old(self).rest().len() ==> {
                &&& res matches Ok(a)
                &&& a@ == old(self).rest().take(N as int)
                &&& final(self).rest() == old(self).rest().skip(N as int)
            },
            N > old(self).rest().len() ==> {
                &&& res is Err
                &&& res->Err_0 == StateError::Truncated
                &&& final(self).rest() == old(self).rest()
            },
    {
        let s = self.take(N)?;
        Ok(array_from_slice(s))
    }
}

/// The little-endian `u16` at byte offset `i` of `s`.
pub open spec fn u16_at(s: Seq<u8>, i: int) -> u16 {
    spec_u16_from_le_bytes(s.subrange(i, i + 2))
}

/// The little-endian `u32` at byte offset `i` of `s`.
pub open spec fn u32_at(s: Seq<u8>, i: int) -> u32 {
    spec_u32_from_le_bytes(s.subrange(i, i + 4))
}

/// Decodes the little-endian `u16` at offset `i` of `b`.
pub fn read_u16_at(b: &[u8], i: usize) -> (x: u16)
    requires
        i + 2 <= b@.len(),
    ensures
        x == u16_at(b@, i as int),
{
    let _len: usize = b.len();
    u16_from_le_bytes(vstd::slice::slice_subrange(b, i, i + 2))
}

/// Decodes the little-endian `u32` at offset `i` of `b`.
pub fn read_u32_at(b: &[u8], i: usize) -> (x: u32)
    requires
        i + 4 <= b@.len(),
    ensures
        x == u32_at(b@, i as int),
{
    let _len: usize = b.len();
    u32_from_le_bytes(vstd::slice::slice_subrange(b, i, i + 4))
}

/// One step of 64-bit FNV-1a.
pub open spec fn fnv1a_step(h: u64, b: u8) -> u64 {
    (h ^ (b as u64)).wrapping_mul(0x0000_0100_0000_01B3)
}

/// 64-bit FNV-1a over a byte sequence.
pub open spec fn fnv1a(s: Seq<u8>) -> u64
    decreases s.len(),
{
    if s.len() == 0 {
        0xcbf2_9ce4_8422_2325u64
    } else {
        fnv1a_step(fnv1a(s.drop_last()), s.last())
    }
}

/// 64-bit FNV-1a hash, used as a ROM identity tag in save-state headers.
pub fn rom_id(rom: &[u8]) -> (h: u64)
    ensures
        h == fnv1a(rom@),
{
    let mut h: u64 = 0xcbf2_9ce4_8422_2325;
    let mut i: usize = 0;
    while i < rom.len()
        invariant
            i <= rom@.len(),
            h == fnv1a(rom@.subrange(0, i as int)),
        decreases rom@.len() - i,
    {
        let ghost prev = rom@.subrange(0, i as int);
        h = (h ^ rom[i] as u64).wrapping_mul(0x0000_0100_0000_01B3);
        i = i + 1;
        assert(rom@.subrange(0, i as int).drop_last() == prev);
    }
    assert(rom@.subrange(0, rom@.len() as int) == rom@);
    h
}

/// Decoding what was encoded gives the value back, for every scalar type a
/// `Writer` can put and a `Reader` can get.
pub proof fn lemma_scalar_round_trip(a: u16, b: u32, c: u64, d: bool)
    ensures
        spec_u16_to_le_bytes(a).len() == 2,
        spec_u16_from_le_bytes(spec_u16_to_le_bytes(a)) == a,
        spec_u32_to_le_bytes(b).len() == 4,
        spec_u32_from_le_bytes(spec_u32_to_le_bytes(b)) == b,
        spec_u64_to_le_bytes(c).len() == 8,
        spec_u64_from_le_bytes(spec_u64_to_le_bytes(c)) == c,
        (bool_byte(d) != 0) == d,
{
    lemma_auto_spec_u16_to_from_le_bytes();
    lemma_auto_spec_u32_to_from_le_bytes();
    lemma_auto_spec_u64_to_from_le_bytes();
    assert(spec_u16_to_le_bytes(a).len() == 2);
    assert(spec_u32_to_le_bytes(b).len() == 4);
    assert(spec_u64_to_le_bytes(c).len() == 8);
}

} // verus!
