use vstd::prelude::*;

verus! {

/// Fixed-point unity: a gain, a fraction, an easing value or a speed factor
/// equal to `UNITY` means 1.
pub const UNITY: i64 = 65536;

/// `x` held within `[lo, hi]`.
pub open spec fn clamp(x: int, lo: int, hi: int) -> int {
    if x < lo {
        lo
    } else if x > hi {
        hi
    } else {
        x
    }
}

/// Linear blend from `a` (at `t == 0`) to `b` (at `t == UNITY`), rounded down.
pub open spec fn lerp(a: int, b: int, t: int) -> int {
    (a * (UNITY - t) + b * t) / (UNITY as int)
}

/// The range that easing values, and so blend factors, stay in.
pub open spec fn blend_factor(t: int) -> bool {
    -UNITY <= t <= 2 * UNITY
}

/// `lo <= n / d <= hi` follows from `lo * d <= n <= hi * d`.
pub proof fn lemma_div_bounds(n: int, d: int, lo: int, hi: int)
    requires
        d > 0,
        lo * d <= n <= hi * d,
    ensures
        lo <= n / d <= hi,
{
    vstd::arithmetic::div_mod::lemma_fundamental_div_mod(n, d);
    let q = n / d;
    let r = n % d;
    assert(lo <= q) by (nonlinear_arith)
        requires
            d > 0,
            lo * d <= n,
            n == d * q + r,
            r < d,
    ;
    assert(q <= hi) by (nonlinear_arith)
        requires
            d > 0,
            n <= hi * d,
            n == d * q + r,
            0 <= r,
    ;
}

/// Floor division of `a` by a positive `d`.
pub fn floor_div(a: i128, d: i128) -> (q: i128)
    requires
        d > 0,
        a > i128::MIN,
    ensures
        q == a / d,
        a >= 0 ==> 0 <= q <= a,
        a < 0 ==> a <= q < 0,
{
    proof {
        if a >= 0 {
            assert(0 * d <= a <= a * d) by (nonlinear_arith)
                requires
                    a >= 0,
                    d >= 1,
            ;
            lemma_div_bounds(a as int, d as int, 0, a as int);
        } else {
            assert(a * d <= a < 0 * d) by (nonlinear_arith)
                requires
                    a < 0,
                    d >= 1,
            ;
            lemma_div_bounds(a as int, d as int, a as int, 0);
            vstd::arithmetic::div_mod::lemma_fundamental_div_mod(a as int, d as int);
        }
    }
    if a >= 0 {
        a / d
    } else {
        let p: i128 = -a;
        let q0: i128 = p / d;
        let r0: i128 = p % d;
        proof {
            vstd::arithmetic::div_mod::lemma_fundamental_div_mod(p as int, d as int);
        }
        if r0 == 0 {
            proof {
                assert(a == (-q0) * d + 0) by (nonlinear_arith)
                    requires
                        p == d * q0 + r0,
                        a == -p,
                        r0 == 0,
                ;
                vstd::arithmetic::div_mod::lemma_fundamental_div_mod_converse(
                    a as int,
                    d as int,
                    -q0,
                    0,
                );
            }
            -q0
        } else {
            proof {
                assert(a == (-q0 - 1) * d + (d - r0)) by (nonlinear_arith)
                    requires
                        p == d * q0 + r0,
                        a == -p,
                ;
                vstd::arithmetic::div_mod::lemma_fundamental_div_mod_converse(
                    a as int,
                    d as int,
                    -q0 - 1,
                    d - r0,
                );
            }
            -q0 - 1
        }
    }
}

/// `x` saturated into the range of `i32`.
pub fn saturate_i32(x: i128) -> (r: i32)
    ensures
        r == clamp(x as int, i32::MIN as int, i32::MAX as int),
{
    if x < i32::MIN as i128 {
        i32::MIN
    } else if x > i32::MAX as i128 {
        i32::MAX
    } else {
        x as i32
    }
}

/// `x` saturated into the range of `i64`.
pub fn saturate_i64(x: i128) -> (r: i64)
    ensures
        r == clamp(x as int, i64::MIN as int, i64::MAX as int),
{
    if x < i64::MIN as i128 {
        i64::MIN
    } else if x > i64::MAX as i128 {
        i64::MAX
    } else {
        x as i64
    }
}

/// `x` saturated into the range of `usize`.
pub fn saturate_usize(x: i128) -> (r: usize)
    ensures
        r == clamp(x as int, 0, usize::MAX as int),
{
    if x < 0 {
        0
    } else if x > usize::MAX as i128 {
        usize::MAX
    } else {
        x as usize
    }
}

/// The linear blend of two `i64` values by a blend factor.
pub fn lerp_wide(a: i64, b: i64, t: i64) -> (r: i128)
    requires
        blend_factor(t as int),
    ensures
        r == lerp(a as int, b as int, t as int),
{
    let u: i128 = UNITY as i128;
    let wa: i128 = u - t as i128;
    let wb: i128 = t as i128;
    proof {
        assert(-0x8000_0000_0000_0000 * 0x30000 <= a * wa <= 0x8000_0000_0000_0000 * 0x30000)
            by (nonlinear_arith)
            requires
                -0x8000_0000_0000_0000 <= a <= 0x8000_0000_0000_0000,
                -0x30000 <= wa <= 0x30000,
        ;
        assert(-0x8000_0000_0000_0000 * 0x30000 <= b * wb <= 0x8000_0000_0000_0000 * 0x30000)
            by (nonlinear_arith)
            requires
                -0x8000_0000_0000_0000 <= b <= 0x8000_0000_0000_0000,
                -0x30000 <= wb <= 0x30000,
        ;
    }
    floor_div(a as i128 * wa + b as i128 * wb, u)
}

/// A blend at the ends of its range gives its end points.
pub proof fn lemma_lerp_ends(a: int, b: int)
    ensures
        lerp(a, b, 0) == a,
        lerp(a, b, UNITY as int) == b,
{
    assert(a * (UNITY - 0) + b * 0 == a * UNITY) by (nonlinear_arith);
    assert(a * (UNITY - UNITY) + b * UNITY == b * UNITY) by (nonlinear_arith);
    lemma_mul_div_cancel(a, UNITY as int);
    lemma_mul_div_cancel(b, UNITY as int);
}

/// A multiple of `d` divided by `d` gives back its factor.
pub proof fn lemma_mul_div_cancel(x: int, d: int)
    requires
        d > 0,
    ensures
        (x * d) / d == x,
{
    vstd::arithmetic::div_mod::lemma_fundamental_div_mod_converse(x * d, d, x, 0);
}

} // verus!
