//! Arithmetic of the high-level-emulated BIOS calls: integer square root and
//! the BIOS's own fixed-point arctangent polynomial.
use vstd::prelude::*;

verus! {

/// Floor of the square root, exact over the whole 32-bit range.
pub fn isqrt(n: u32) -> (r: u32)
    ensures
        r as int * r as int <= n as int,
        n < (r as int + 1) * (r as int + 1),
{
    let n64 = n as u64;
    let mut lo: u64 = 0;
    let mut hi: u64 = 0x1_0000;
    assert(hi * hi > n64) by (nonlinear_arith)
        requires hi == 0x1_0000, n64 <= 0xFFFF_FFFF;
    while hi - lo > 1
        invariant
            lo < hi <= 0x1_0000,
            lo * lo <= n64,
            n64 < hi * hi,
            n64 == n,
        decreases hi - lo,
    {
        let mid = lo + (hi - lo) / 2;
        assert(mid * mid <= 0x1_0000_0000) by (nonlinear_arith)
            requires mid <= 0x1_0000;
        if mid * mid <= n64 {
            lo = mid;
        } else {
            hi = mid;
        }
    }
    assert(lo < 0x1_0000);
    lo as u32
}

/// One step of the arctangent polynomial's Horner scheme.
pub open spec fn horner(b: i32, a: i32, c: i32) -> i32 {
    (b.wrapping_mul(a) >> 14u32).wrapping_add(c)
}

/// The BIOS arctangent polynomial in 1.14 fixed point, with the 32-bit
/// two's complement arithmetic of the BIOS.
pub open spec fn arctan_value(i: i32) -> i32 {
    let a = (-(i.wrapping_mul(i) >> 14u32)) as i32;
    let b0 = ((0xA9i32).wrapping_mul(a) >> 14u32).wrapping_add(0x390);
    let b1 = horner(b0, a, 0x91C);
    let b2 = horner(b1, a, 0xFB6);
    let b3 = horner(b2, a, 0x16AA);
    let b4 = horner(b3, a, 0x2081);
    let b5 = horner(b4, a, 0x3651);
    let b6 = horner(b5, a, 0xA2F9);
    i.wrapping_mul(b6) >> 16u32
}

fn step(b: i32, a: i32, c: i32) -> (r: i32)
    ensures
        r == horner(b, a, c),
{
    (b.wrapping_mul(a) >> 14u32).wrapping_add(c)
}

pub fn arctan(i: i32) -> (r: i32)
    ensures
        r == arctan_value(i),
{
    let sq = i.wrapping_mul(i) >> 14u32;
    assert(sq > i32::MIN) by (bit_vector)
        requires sq == i.wrapping_mul(i) >> 14u32;
    let a = -sq;
    let mut b = ((0xA9i32).wrapping_mul(a) >> 14u32).wrapping_add(0x390);
    b = step(b, a, 0x91C);
    b = step(b, a, 0xFB6);
    b = step(b, a, 0x16AA);
    b = step(b, a, 0x2081);
    b = step(b, a, 0x3651);
    b = step(b, a, 0xA2F9);
    i.wrapping_mul(b) >> 16u32
}

/// The sign bit of `v` moved to bit 15 (0x8000 for negatives).
pub open spec fn sign_half(v: i32) -> i32 {
    (v >> 16u32) & 0x8000
}

/// ArcTan2 with the BIOS quadrant handling (0..0xFFFF, 0x4000 = 90 deg).
pub open spec fn arctan2_value(x: i32, y: i32) -> u32 {
    if y == 0 {
        sign_half(x) as u32
    } else if x == 0 {
        (sign_half(y) + 0x4000) as u32
    } else if abs(x) > abs(y) || (abs(x) == abs(y) && (x >= 0 || y >= 0)) {
        let t = arctan_value(quotient(y << 14u32, x));
        if x < 0 {
            (0x8000i32).wrapping_add(t) as u32
        } else {
            ((sign_half(y) << 1u32).wrapping_add(t)) as u32
        }
    } else {
        let t = arctan_value(quotient(x << 14u32, y));
        ((sign_half(y) + 0x4000) as i32).wrapping_sub(t) as u32
    }
}

/// Quotient rounded toward zero, in 32-bit two's complement (so that
/// i32::MIN / -1 wraps to i32::MIN).
pub open spec fn quotient(n: i32, d: i32) -> i32 {
    let q = abs(n) / abs(d);
    let signed = if (n < 0) != (d < 0) { -q } else { q };
    if signed > i32::MAX { i32::MIN } else { signed as i32 }
}

fn div_trunc(n: i32, d: i32) -> (q: i32)
    requires
        d != 0,
    ensures
        q == quotient(n, d),
{
    let un: i64 = if n < 0 { -(n as i64) } else { n as i64 };
    let ud: i64 = if d < 0 { -(d as i64) } else { d as i64 };
    let q = un / ud;
    assert(0 <= q <= un) by (nonlinear_arith)
        requires q == un / ud, ud >= 1, un >= 0;
    let signed: i64 = if (n < 0) != (d < 0) { -q } else { q };
    if signed > i32::MAX as i64 {
        i32::MIN
    } else {
        signed as i32
    }
}

pub open spec fn abs(v: i32) -> int {
    if v < 0 { -v } else { v as int }
}

pub fn arctan2(x: i32, y: i32) -> (r: u32)
    requires
        x != i32::MIN,
        y != i32::MIN,
    ensures
        r == arctan2_value(x, y),
{
    if y == 0 {
        return ((x >> 16u32) & 0x8000) as u32;
    }
    let sy = (y >> 16u32) & 0x8000;
    assert(0 <= sy <= 0x8000) by (bit_vector)
        requires sy == (y >> 16u32) & 0x8000;
    if x == 0 {
        return (sy + 0x4000) as u32;
    }
    let ax = if x < 0 { -x } else { x };
    let ay = if y < 0 { -y } else { y };
    if ax > ay || (ax == ay && (x >= 0 || y >= 0)) {
        let t = arctan(div_trunc(y << 14u32, x));
        if x < 0 {
            (0x8000i32).wrapping_add(t) as u32
        } else {
            ((sy << 1u32).wrapping_add(t)) as u32
        }
    } else {
        let t = arctan(div_trunc(x << 14u32, y));
        ((sy + 0x4000) as i32).wrapping_sub(t) as u32
    }
}

} // verus!
