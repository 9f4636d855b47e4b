//! Unsigned 256-bit integers, for exact comparisons of sums of squares.
use vstd::prelude::*;

verus! {

/// `2^64`
pub open spec fn b64() -> int {
    0x1_0000_0000_0000_0000
}

/// `2^128`
pub open spec fn b128() -> int {
    (0xffff_ffff_ffff_ffff_ffff_ffff_ffff_ffff + 1) as int
}

/// `2^256`
pub open spec fn b256() -> int {
    b128() * b128()
}

/// The number `hi · 2^128 + lo`.
#[derive(Clone, Copy)]
pub struct U256 {
    pub hi: u128,
    pub lo: u128,
}

/// The value of a 256-bit number.
pub open spec fn value(x: U256) -> int {
    x.hi * b128() + x.lo
}

proof fn lemma_value_bounds(x: U256)
    ensures
        0 <= value(x) < b256(),
        x.hi * b128() <= value(x),
{
    assert(x.hi * b128() <= (b128() - 1) * b128()) by (nonlinear_arith)
        requires
            x.hi < b128(),
    ;
    assert(b256() == b128() * b128());
    assert((b128() - 1) * b128() + b128() == b128() * b128()) by (nonlinear_arith);
}

/// `x` as a 256-bit number.
pub fn from_u128(x: u128) -> (r: U256)
    ensures
        value(r) == x,
{
    U256 { hi: 0, lo: x }
}

/// `x + y`, which must stay below `2^256`.
pub fn add_wide(x: U256, y: U256) -> (r: U256)
    requires
        value(x) + value(y) < b256(),
    ensures
        value(r) == value(x) + value(y),
{
    proof {
        lemma_value_bounds(x);
        lemma_value_bounds(y);
    }
    let room = u128::MAX - x.lo;
    if y.lo <= room {
        assert((x.hi + y.hi) * b128() == x.hi * b128() + y.hi * b128()) by (nonlinear_arith);
        assert(x.hi + y.hi < b128()) by (nonlinear_arith)
            requires
                x.hi * b128() + y.hi * b128() <= value(x) + value(y),
                value(x) + value(y) < b128() * b128(),
        ;
        U256 { hi: x.hi + y.hi, lo: x.lo + y.lo }
    } else {
        let lo = y.lo - room - 1;
        assert((x.hi + y.hi + 1) * b128() == x.hi * b128() + y.hi * b128() + b128()) by (
        nonlinear_arith);
        assert(x.hi + y.hi + 1 < b128()) by (nonlinear_arith)
            requires
                x.hi * b128() + y.hi * b128() + b128() <= value(x) + value(y),
                value(x) + value(y) < b128() * b128(),
        ;
        U256 { hi: x.hi + y.hi + 1, lo }
    }
}

/// `x - y`, for `x >= y`.
pub fn sub_wide(x: U256, y: U256) -> (r: U256)
    requires
        value(x) >= value(y),
    ensures
        value(r) == value(x) - value(y),
{
    proof {
        lemma_value_bounds(x);
        lemma_value_bounds(y);
    }
    if x.lo >= y.lo {
        assert(x.hi >= y.hi) by (nonlinear_arith)
            requires
                x.hi * b128() + x.lo >= y.hi * b128() + y.lo,
                x.lo < b128(),
                y.lo >= 0,
        ;
        assert((x.hi - y.hi) * b128() == x.hi * b128() - y.hi * b128()) by (nonlinear_arith);
        U256 { hi: x.hi - y.hi, lo: x.lo - y.lo }
    } else {
        assert(x.hi > y.hi) by (nonlinear_arith)
            requires
                x.hi * b128() + x.lo >= y.hi * b128() + y.lo,
                x.lo < y.lo,
                y.lo < b128(),
        ;
        let lo = (u128::MAX - y.lo) + x.lo + 1;
        assert((x.hi - y.hi - 1) * b128() == x.hi * b128() - y.hi * b128() - b128()) by (
        nonlinear_arith);
        U256 { hi: x.hi - y.hi - 1, lo }
    }
}

/// Whether `x <= y`.
pub fn le(x: U256, y: U256) -> (b: bool)
    ensures
        b == (value(x) <= value(y)),
{
    if x.hi == y.hi {
        x.lo <= y.lo
    } else {
        assert(x.hi < y.hi ==> value(x) < value(y)) by (nonlinear_arith)
            requires
                x.lo < b128(),
                y.lo >= 0,
        ;
        assert(x.hi > y.hi ==> value(x) > value(y)) by (nonlinear_arith)
            requires
                y.lo < b128(),
                x.lo >= 0,
        ;
        x.hi < y.hi
    }
}

/// `p · 2^64` for `p < 2^128`.
fn shift64(p: u128) -> (r: U256)
    ensures
        value(r) == p * b64(),
{
    let hi = p / 0x1_0000_0000_0000_0000u128;
    let l = p % 0x1_0000_0000_0000_0000u128;
    assert(l * b64() < b128()) by (nonlinear_arith)
        requires
            l < b64(),
    ;
    let lo = l * 0x1_0000_0000_0000_0000u128;
    assert(p * b64() == hi * b128() + lo) by (nonlinear_arith)
        requires
            p == hi * b64() + l,
            lo == l * b64(),
    ;
    U256 { hi, lo }
}

/// The full product `a · b`.
pub fn mul_wide(a: u128, b: u128) -> (r: U256)
    ensures
        value(r) == a * b,
{
    let m: u128 = 0x1_0000_0000_0000_0000u128;
    let a1 = a / m;
    let a0 = a % m;
    let b1 = b / m;
    let b0 = b % m;
    assert(a1 < b64() && b1 < b64());
    assert(a0 * b0 < b128() && a0 * b1 < b128() && a1 * b0 < b128() && a1 * b1 < b128()) by (
    nonlinear_arith)
        requires
            a0 < b64(),
            b0 < b64(),
            a1 < b64(),
            b1 < b64(),
            a0 >= 0,
            b0 >= 0,
            a1 >= 0,
            b1 >= 0,
    ;
    let p00 = a0 * b0;
    let p01 = a0 * b1;
    let p10 = a1 * b0;
    let p11 = a1 * b1;
    assert(a * b == p11 * b128() + (p01 + p10) * b64() + p00) by (nonlinear_arith)
        requires
            a == a1 * b64() + a0,
            b == b1 * b64() + b0,
            p00 == a0 * b0,
            p01 == a0 * b1,
            p10 == a1 * b0,
            p11 == a1 * b1,
    ;
    assert(a * b < b256()) by (nonlinear_arith)
        requires
            0 <= a < b128(),
            0 <= b < b128(),
    ;
    assert(p01 * b64() >= 0 && p10 * b64() >= 0 && p11 * b128() >= 0) by (nonlinear_arith)
        requires
            p01 >= 0,
            p10 >= 0,
            p11 >= 0,
    ;
    let s1 = add_wide(from_u128(p00), shift64(p01));
    let s2 = add_wide(s1, shift64(p10));
    add_wide(s2, U256 { hi: p11, lo: 0 })
}

/// `x · k`, which must stay below `2^256`.
pub fn mul_small(x: U256, k: u64) -> (r: U256)
    requires
        value(x) * k < b256(),
    ensures
        value(r) == value(x) * k,
{
    proof {
        lemma_value_bounds(x);
    }
    let low = mul_wide(x.lo, k as u128);
    assert(x.hi * k < b128()) by (nonlinear_arith)
        requires
            (x.hi * b128() + x.lo) * k < b128() * b128(),
            x.lo >= 0,
            k >= 0,
            x.hi >= 0,
    ;
    let h = x.hi * k as u128;
    assert(value(x) * k == h * b128() + x.lo * k) by (nonlinear_arith)
        requires
            h == x.hi * k,
            value(x) == x.hi * b128() + x.lo,
    ;
    assert(x.lo * k >= 0) by (nonlinear_arith)
        requires
            x.lo >= 0,
            k >= 0,
    ;
    add_wide(low, U256 { hi: h, lo: 0 })
}

} // verus!
