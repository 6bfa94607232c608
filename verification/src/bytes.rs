//! Byte-buffer helpers shared by the save and memory code.
use vstd::prelude::*;

verus! {

/// A fresh vector with the same bytes.
pub fn copy_of(src: &[u8]) -> (r: Vec<u8>)
    ensures
        r@ == src@,
{
    let mut r: Vec<u8> = Vec::new();
    let mut i: usize = 0;
    while i < src.len()
        invariant
            i <= src@.len(),
            r@ == src@.subrange(0, i as int),
        decreases src@.len() - i,
    {
        r.push(src[i]);
        i = i + 1;
        assert(src@.subrange(0, i as int) == src@.subrange(0, i - 1).push(src@[i - 1]));
    }
    assert(src@.subrange(0, src@.len() as int) == src@);
    r
}

/// A vector of `n` copies of `value`.
pub fn filled(n: usize, value: u8) -> (r: Vec<u8>)
    ensures
        r@ == Seq::new(n as nat, |_i: int| value),
{
    let mut r: Vec<u8> = Vec::new();
    let mut i: usize = 0;
    while i < n
        invariant
            i <= n,
            r@ == Seq::new(i as nat, |_i: int| value),
        decreases n - i,
    {
        r.push(value);
        i = i + 1;
        assert(r@ =~= Seq::new(i as nat, |_i: int| value));
    }
    r
}

/// The bytes of `dst` after its first `min(src.len(), dst.len())` bytes are
/// overwritten by the start of `src`.
pub open spec fn overlay(dst: Seq<u8>, src: Seq<u8>) -> Seq<u8> {
    let n = if src.len() < dst.len() { src.len() } else { dst.len() };
    src.take(n as int) + dst.skip(n as int)
}

/// Overwrites the start of `dst` with as much of `src` as fits.
pub fn copy_prefix(dst: &mut Vec<u8>, src: &[u8])
    ensures
        final(dst)@ == overlay(old(dst)@, src@),
{
    let n = if src.len() < dst.len() { src.len() } else { dst.len() };
    let ghost d0 = dst@;
    let mut i: usize = 0;
    while i < n
        invariant
            n <= src@.len(),
            n <= d0.len(),
            i <= n,
            dst@.len() == d0.len(),
            forall|j: int| 0 <= j < i ==> dst@[j] == src@[j],
            forall|j: int| i <= j < d0.len() ==> dst@[j] == d0[j],
        decreases n - i,
    {
        dst.set(i, src[i]);
        i = i + 1;
    }
    assert(dst@ =~= overlay(d0, src@));
}

/// Sets `dst[start..end]` to `value`.
pub fn fill_range(dst: &mut Vec<u8>, start: usize, end: usize, value: u8)
    requires
        start <= end <= old(dst)@.len(),
    ensures
        final(dst)@.len() == old(dst)@.len(),
        forall|j: int|
            0 <= j < old(dst)@.len() ==> final(dst)@[j] == if start <= j < end {
                value
            } else {
                old(dst)@[j]
            },
{
    let ghost d0 = dst@;
    let mut i: usize = start;
    while i < end
        invariant
            start <= i <= end,
            end <= d0.len(),
            dst@.len() == d0.len(),
            forall|j: int|
                0 <= j < d0.len() ==> dst@[j] == if start <= j < i {
                    value
                } else {
                    d0[j]
                },
        decreases end - i,
    {
        dst.set(i, value);
        i = i + 1;
    }
}

} // verus!
