//! Fixed-point scalars and the integer arithmetic shared by the other modules.
//!
//! A scalar is an `i32` counting thousandths: `1500` is 1.5 world units,
//! 1.5 seconds or 1.5 health points. Results that would leave the `i32`
//! range stick to its nearest end.

use vstd::prelude::*;

verus! {

/// A length or coordinate, in thousandths of a world unit.
pub type Coord = i32;

/// A duration or instant, in thousandths of a second.
pub type Time = i32;

/// An amount of health, in thousandths of a point.
pub type Hp = i32;

/// The raw value of 1.0.
pub const UNIT: i32 = 1000;

/// `v` moved to the nearest value that an `i32` holds.
pub open spec fn sat(v: int) -> int {
    if v < i32::MIN as int {
        i32::MIN as int
    } else if v > i32::MAX as int {
        i32::MAX as int
    } else {
        v
    }
}

/// Quotient rounded toward zero, for a positive divisor.
pub open spec fn div_trunc(a: int, b: int) -> int {
    if a >= 0 {
        a / b
    } else {
        -((-a) / b)
    }
}

/// Quotient rounded to the nearest integer, halves upward, for a positive divisor.
pub open spec fn div_round(a: int, b: int) -> int {
    (2 * a + b) / (2 * b)
}

/// `r` is the integer square root of `n`.
pub open spec fn is_floor_sqrt(n: int, r: int) -> bool {
    0 <= r && r * r <= n && n < (r + 1) * (r + 1)
}

/// The largest `r` with `r * r <= n`.
pub open spec fn floor_sqrt(n: nat) -> nat
    decreases n,
{
    if n == 0 {
        0
    } else {
        let r = floor_sqrt((n - 1) as nat);
        if (r + 1) * (r + 1) <= n {
            r + 1
        } else {
            r
        }
    }
}

/// `floor_sqrt(n)` squared does not exceed `n`, and the next square does.
pub proof fn lemma_floor_sqrt(n: nat)
    ensures
        is_floor_sqrt(n as int, floor_sqrt(n) as int),
    decreases n,
{
    if n > 0 {
        lemma_floor_sqrt((n - 1) as nat);
        let r = floor_sqrt((n - 1) as nat) as int;
        assert((r + 1) * (r + 1) < (r + 2) * (r + 2)) by (nonlinear_arith)
            requires
                r >= 0,
        ;
    }
}

/// Only one number is the integer square root of `n`.
pub proof fn lemma_floor_sqrt_unique(n: nat, r: int)
    requires
        is_floor_sqrt(n as int, r),
    ensures
        r == floor_sqrt(n),
{
    lemma_floor_sqrt(n);
    let s = floor_sqrt(n) as int;
    if r < s {
        assert((r + 1) * (r + 1) <= s * s) by (nonlinear_arith)
            requires
                0 <= r,
                r + 1 <= s,
        ;
    } else if s < r {
        assert((s + 1) * (s + 1) <= r * r) by (nonlinear_arith)
            requires
                0 <= s,
                s + 1 <= r,
        ;
    }
}

/// A product is bounded by the product of its factors' bounds.
pub proof fn lemma_product_bound(a: int, b: int, ma: int, mb: int)
    requires
        -ma <= a <= ma,
        -mb <= b <= mb,
    ensures
        -(ma * mb) <= a * b <= ma * mb,
{
    assert(-(ma * mb) <= a * b <= ma * mb) by (nonlinear_arith)
        requires
            -ma <= a <= ma,
            -mb <= b <= mb,
    ;
}

/// What rounding toward zero leaves of a quotient.
pub proof fn lemma_div_trunc(a: int, b: int)
    requires
        b > 0,
    ensures
        a >= 0 ==> 0 <= div_trunc(a, b) * b <= a < div_trunc(a, b) * b + b,
        a <= 0 ==> a <= div_trunc(a, b) * b <= 0 && div_trunc(a, b) * b - b < a,
{
    if a >= 0 {
        assert(0 <= (a / b) * b <= a < (a / b) * b + b) by (nonlinear_arith)
            requires
                a >= 0,
                b > 0,
        ;
    } else {
        let m = -a;
        assert(0 <= (m / b) * b <= m < (m / b) * b + b) by (nonlinear_arith)
            requires
                m >= 0,
                b > 0,
        ;
        assert((-(m / b)) * b == -((m / b) * b)) by (nonlinear_arith);
    }
}

/// Clamps a 64-bit value into the scalar range.
pub fn saturate(v: i64) -> (r: i32)
    ensures
        r as int == sat(v as int),
{
    if v < -2147483648 {
        -2147483648
    } else if v > 2147483647 {
        2147483647
    } else {
        v as i32
    }
}

/// Clamps a 128-bit value into the scalar range.
pub fn saturate_wide(v: i128) -> (r: i32)
    ensures
        r as int == sat(v as int),
{
    if v < -2147483648 {
        -2147483648
    } else if v > 2147483647 {
        2147483647
    } else {
        v as i32
    }
}

/// Integer square root by bisection.
pub fn isqrt(n: u128) -> (r: u64)
    ensures
        r as nat == floor_sqrt(n as nat),
{
    let mut lo: u128 = 0;
    let mut hi: u128 = 0x1_0000_0000_0000_0000;
    while hi - lo > 1
        invariant
            lo < hi <= 0x1_0000_0000_0000_0000,
            lo * lo <= n,
            n < hi * hi,
        decreases hi - lo,
    {
        let mid: u128 = lo + (hi - lo) / 2;
        assert(mid * mid <= 0xffff_ffff_ffff_ffffint * 0xffff_ffff_ffff_ffffint)
            by (nonlinear_arith)
            requires
                0 <= mid <= 0xffff_ffff_ffff_ffff,
        ;
        if mid * mid <= n {
            lo = mid;
        } else {
            hi = mid;
        }
    }
    proof {
        lemma_floor_sqrt_unique(n as nat, lo as int);
    }
    lo as u64
}

/// `delta * num / den`, rounded toward zero.
pub(crate) fn scale(delta: i64, num: i128, den: i128) -> (r: i128)
    requires
        den > 0,
        -0x1_0000_0000 <= delta <= 0x1_0000_0000,
        -0x4_0000_0000_0000_0000 <= num <= 0x4_0000_0000_0000_0000,
    ensures
        r == div_trunc(delta * num, den as int),
{
    proof {
        lemma_product_bound(delta as int, num as int, 0x1_0000_0000, 0x4_0000_0000_0000_0000);
    }
    let wide: i128 = delta as i128 * num;
    wide / den
}

} // verus!
