use vstd::prelude::*;

use crate::fixed::{clamp, floor_div, lemma_div_bounds, UNITY};

verus! {

/// `x` to the power `n`.
pub open spec fn power(x: int, n: nat) -> int
    decreases n,
{
    if n == 0 {
        1
    } else {
        x * power(x, (n - 1) as nat)
    }
}

/// The fixed-point power `(u / UNITY)^n`, in fixed point, rounded down.
pub open spec fn unit_power(u: int, n: nat) -> int {
    power(u, n) / power(UNITY as int, (n - 1) as nat)
}

/// The integer square root of `x`, rounded down.
pub open spec fn is_floor_sqrt(x: int, r: int) -> bool {
    0 <= r && r * r <= x < (r + 1) * (r + 1)
}

/// The integer square root of `x >= 0`, rounded down.
pub open spec fn floor_sqrt(x: int) -> int {
    choose|r: int| is_floor_sqrt(x, r)
}

/// `sin(v * pi / 2)` for `v` in `[0, 2]` (fixed point), by Bhaskara's
/// rational approximation, which is exact at 0, 1/2 and 1 half-turns.
pub open spec fn sine_quarter(v: int) -> int {
    let u = UNITY as int;
    let x = v * (2 * u - v);
    (4 * x * u) / (5 * u * u - x)
}

/// `sin(q * pi / 2)` for any fixed-point count of quarter turns `q`.
pub open spec fn sine_turns(q: int) -> int {
    let u = UNITY as int;
    let r = q % (4 * u);
    if r < 2 * u {
        sine_quarter(r)
    } else {
        -sine_quarter(r - 2 * u)
    }
}

/// `2^n`.
pub open spec fn two_to(n: nat) -> int
    decreases n,
{
    if n == 0 {
        1
    } else {
        2 * two_to((n - 1) as nat)
    }
}

/// Coefficients of the cubic that approximates `2^f - 1` on `[0, 1)`; they
/// sum to `UNITY`, so the fit is exact at both ends.
pub const EXP_A1: i64 = 45608;
/// Second coefficient of the `2^f` cubic.
pub const EXP_A2: i64 = 14742;
/// Third coefficient of the `2^f` cubic.
pub const EXP_A3: i64 = 5186;

/// `2^f` for a fixed-point fraction `f` in `[0, 1)`, in fixed point.
pub open spec fn exp2_fraction(f: int) -> int {
    let u = UNITY as int;
    u + (EXP_A1 * f * u * u + EXP_A2 * f * f * u + EXP_A3 * f * f * f) / (u * u * u)
}

/// `2^(x / UNITY)` in fixed point, the exponent held within 32 octaves
/// either way.
pub open spec fn exp2(x: int) -> int {
    let u = UNITY as int;
    let y = clamp(x, -32 * u, 32 * u);
    let n = y / u;
    let p = exp2_fraction(y % u);
    if n >= 0 {
        p * two_to(n as nat)
    } else {
        p / two_to((-n) as nat)
    }
}

proof fn lemma_power_bounds(x: int, n: nat)
    requires
        0 <= x <= UNITY,
    ensures
        0 <= power(x, n) <= power(UNITY as int, n),
    decreases n,
{
    if n > 0 {
        lemma_power_bounds(x, (n - 1) as nat);
        let a = power(x, (n - 1) as nat);
        let b = power(UNITY as int, (n - 1) as nat);
        assert(0 <= x * a <= UNITY * b) by (nonlinear_arith)
            requires
                0 <= a <= b,
                0 <= x <= UNITY,
        ;
    }
}

pub proof fn lemma_unity_powers()
    ensures
        power(UNITY as int, 0) == 1,
        power(UNITY as int, 1) == 0x10000,
        power(UNITY as int, 2) == 0x1_0000_0000,
        power(UNITY as int, 3) == 0x1_0000_0000_0000,
        power(UNITY as int, 4) == 0x1_0000_0000_0000_0000,
        power(UNITY as int, 5) == 0x1_0000_0000_0000_0000_0000,
{
    reveal_with_fuel(power, 6);
}

/// The fixed-point power `(u / UNITY)^n`.
pub fn unit_power_exec(u: i64, n: u32) -> (r: i128)
    requires
        0 <= u <= UNITY,
        1 <= n <= 5,
    ensures
        r == unit_power(u as int, n as nat),
        0 <= r <= UNITY,
{
    let mut acc: i128 = 1;
    let mut scale: i128 = 1;
    let mut k: u32 = 0;
    proof {
        lemma_unity_powers();
    }
    while k < n
        invariant
            0 <= u <= UNITY,
            1 <= n <= 5,
            k <= n,
            acc == power(u as int, k as nat),
            0 <= acc <= power(UNITY as int, k as nat),
            scale == power(UNITY as int, (if k == 0 { 0 } else { k - 1 }) as nat),
            power(UNITY as int, 5) == 0x1_0000_0000_0000_0000_0000,
            power(UNITY as int, 4) == 0x1_0000_0000_0000_0000,
        decreases n - k,
    {
        proof {
            lemma_power_bounds(u as int, (k + 1) as nat);
            lemma_power_monotone((k + 1) as nat);
            assert(power(u as int, (k + 1) as nat) == u * acc);
        }
        acc = (u as i128) * acc;
        if k > 0 {
            proof {
                lemma_power_monotone(k as nat);
                assert(power(UNITY as int, k as nat) == UNITY * scale);
            }
            scale = (UNITY as i128) * scale;
        }
        k = k + 1;
    }
    proof {
        lemma_power_bounds(u as int, n as nat);
        assert(power(UNITY as int, n as nat) == UNITY * power(UNITY as int, (n - 1) as nat));
        lemma_power_positive((n - 1) as nat);
        lemma_div_bounds(acc as int, scale as int, 0, UNITY as int);
    }
    floor_div(acc, scale)
}

proof fn lemma_power_positive(n: nat)
    ensures
        power(UNITY as int, n) >= 1,
    decreases n,
{
    if n > 0 {
        lemma_power_positive((n - 1) as nat);
    }
}

proof fn lemma_power_monotone(n: nat)
    requires
        n <= 5,
    ensures
        power(UNITY as int, n) <= 0x1_0000_0000_0000_0000_0000,
{
    lemma_unity_powers();
    if n == 0 {
    } else if n == 1 {
    } else if n == 2 {
    } else if n == 3 {
    } else if n == 4 {
    } else {
    }
}

pub proof fn lemma_floor_sqrt_unique(x: int, r: int)
    requires
        is_floor_sqrt(x, r),
    ensures
        floor_sqrt(x) == r,
{
    let s = floor_sqrt(x);
    assert(is_floor_sqrt(x, s));
    if s < r {
        assert((s + 1) * (s + 1) <= r * r) by (nonlinear_arith)
            requires
                0 <= s < r,
        ;
    } else if r < s {
        assert((r + 1) * (r + 1) <= s * s) by (nonlinear_arith)
            requires
                0 <= r < s,
        ;
    }
}

/// The integer square root, rounded down, of `x` in `[0, UNITY^2]`.
pub fn sqrt_exec(x: i64) -> (r: i64)
    requires
        0 <= x <= UNITY * UNITY,
    ensures
        r == floor_sqrt(x as int),
        0 <= r <= UNITY,
{
    let mut lo: i64 = 0;
    let mut hi: i64 = UNITY + 1;
    while hi - lo > 1
        invariant
            0 <= lo < hi <= UNITY + 1,
            lo * lo <= x,
            x < hi * hi,
        decreases hi - lo,
    {
        let mid: i64 = lo + (hi - lo) / 2;
        proof {
            assert(0 <= mid * mid <= 65537 * 65537) by (nonlinear_arith)
                requires
                    0 <= mid <= 65537,
            ;
        }
        if mid * mid <= x {
            lo = mid;
        } else {
            hi = mid;
        }
    }
    proof {
        assert(hi == lo + 1);
        lemma_floor_sqrt_unique(x as int, lo as int);
        if lo > UNITY {
            assert(lo * lo > UNITY * UNITY) by (nonlinear_arith)
                requires
                    lo > UNITY,
            ;
        }
    }
    lo
}

/// `sin(v * pi / 2)` for `v` in `[0, 2]`, in fixed point.
pub fn sine_quarter_exec(v: i64) -> (r: i64)
    requires
        0 <= v <= 2 * UNITY,
    ensures
        r == sine_quarter(v as int),
        0 <= r <= UNITY,
{
    let u: i128 = UNITY as i128;
    let vw: i128 = v as i128;
    proof {
        assert(0 <= vw * (2 * u - vw) <= u * u) by (nonlinear_arith)
            requires
                0 <= vw <= 2 * u,
        ;
    }
    let x: i128 = vw * (2 * u - vw);
    let den: i128 = 5 * u * u - x;
    proof {
        assert(0 <= 4 * x * u <= UNITY * den) by (nonlinear_arith)
            requires
                0 <= x <= u * u,
                den == 5 * u * u - x,
                u == UNITY,
        ;
        lemma_div_bounds(4 * x * u, den as int, 0, UNITY as int);
    }
    floor_div(4 * x * u, den) as i64
}

/// `sin(q * pi / 2)` for a fixed-point count of quarter turns `q`.
pub fn sine_turns_exec(q: i64) -> (r: i64)
    requires
        -0x100_0000_0000 <= q <= 0x100_0000_0000,
    ensures
        r == sine_turns(q as int),
        -UNITY <= r <= UNITY,
{
    let period: i128 = 4 * UNITY as i128;
    let k: i128 = floor_div(q as i128, period);
    proof {
        vstd::arithmetic::div_mod::lemma_fundamental_div_mod(q as int, period as int);
        assert(-0x100_0000_0000 <= k <= 0x100_0000_0000) by (nonlinear_arith)
            requires
                q == period * k + (q as int) % (period as int),
                0 <= (q as int) % (period as int) < period,
                period == 0x40000,
                -0x100_0000_0000 <= q <= 0x100_0000_0000,
        ;
    }
    let rem: i128 = q as i128 - k * period;
    if rem < 2 * UNITY as i128 {
        sine_quarter_exec(rem as i64)
    } else {
        -sine_quarter_exec((rem - 2 * UNITY as i128) as i64)
    }
}

proof fn lemma_two_to_bounds(k: nat)
    requires
        k <= 32,
    ensures
        1 <= two_to(k) <= 0x1_0000_0000,
        two_to(k) * two_to((32 - k) as nat) == 0x1_0000_0000,
    decreases 32 - k,
{
    if k == 32 {
        reveal_with_fuel(two_to, 33);
        assert(two_to(32) == 0x1_0000_0000);
        assert(two_to(0) == 1);
    } else {
        lemma_two_to_bounds(k + 1);
        let a = two_to(k);
        let b = two_to((32 - k - 1) as nat);
        assert(two_to(k + 1) == 2 * a);
        assert(two_to((32 - k) as nat) == 2 * b);
        assert(a * (2 * b) == (2 * a) * b) by (nonlinear_arith);
        lemma_two_to_positive(k);
        lemma_two_to_positive((32 - k - 1) as nat);
    }
}

proof fn lemma_two_to_positive(k: nat)
    ensures
        two_to(k) >= 1,
    decreases k,
{
    if k > 0 {
        lemma_two_to_positive((k - 1) as nat);
    }
}

pub fn two_to_exec(k: u32) -> (r: i128)
    requires
        k <= 32,
    ensures
        r == two_to(k as nat),
        1 <= r <= 0x1_0000_0000,
{
    let mut r: i128 = 1;
    let mut i: u32 = 0;
    while i < k
        invariant
            i <= k <= 32,
            r == two_to(i as nat),
        decreases k - i,
    {
        proof {
            lemma_two_to_bounds(i as nat);
        }
        r = r * 2;
        i = i + 1;
    }
    proof {
        lemma_two_to_bounds(k as nat);
    }
    r
}

/// `2^(x / UNITY)` in fixed point, the exponent held within 32 octaves.
pub fn exp2_exec(x: i64) -> (r: i64)
    ensures
        r == exp2(x as int),
        0 <= r <= 0x2_0000_0000_0000,
{
    let u: i128 = UNITY as i128;
    let y: i128 = if (x as i128) < -32 * u {
        -32 * u
    } else if (x as i128) > 32 * u {
        32 * u
    } else {
        x as i128
    };
    let n: i128 = floor_div(y, u);
    proof {
        vstd::arithmetic::div_mod::lemma_fundamental_div_mod(y as int, u as int);
        assert(-32 <= n <= 32) by (nonlinear_arith)
            requires
                y == u * n + y % u,
                0 <= y % u < u,
                u == 0x10000,
                -32 * u <= y <= 32 * u,
        ;
    }
    let f: i128 = y - n * u;
    proof {
        assert(f == y % u);
        assert(0 <= f * f <= 0x1_0000_0000) by (nonlinear_arith)
            requires
                0 <= f <= 0x10000,
        ;
        assert(0 <= f * f * f <= 0x1_0000_0000_0000) by (nonlinear_arith)
            requires
                0 <= f <= 0x10000,
        ;
        assert(0 <= EXP_A1 * f * u * u <= EXP_A1 * u * u * u) by (nonlinear_arith)
            requires
                0 <= f <= u,
                u == 0x10000,
        ;
        assert(0 <= EXP_A2 * f * f * u <= EXP_A2 * u * u * u) by (nonlinear_arith)
            requires
                0 <= f <= u,
                u == 0x10000,
        ;
        assert(0 <= EXP_A3 * f * f * f <= EXP_A3 * u * u * u) by (nonlinear_arith)
            requires
                0 <= f <= u,
                u == 0x10000,
        ;
    }
    let f2: i128 = f * f;
    let num: i128 = EXP_A1 as i128 * f * u * u + EXP_A2 as i128 * f2 * u + EXP_A3 as i128 * (f2 * f);
    proof {
        lemma_div_bounds(num as int, u * u * u, 0, u as int);
    }
    let p: i128 = u + floor_div(num, u * u * u);
    proof {
        assert(EXP_A2 * f2 * u == EXP_A2 * f * f * u) by (nonlinear_arith)
            requires
                f2 == f * f,
        ;
        assert(EXP_A3 * (f2 * f) == EXP_A3 * f * f * f) by (nonlinear_arith)
            requires
                f2 == f * f,
        ;
        assert(p == exp2_fraction((y as int) % (u as int)));
        assert(y == clamp(x as int, -32 * UNITY, 32 * UNITY));
    }
    if n >= 0 {
        let m: i128 = two_to_exec(n as u32);
        proof {
            assert(0 <= p * m <= 2 * u * 0x1_0000_0000) by (nonlinear_arith)
                requires
                    u <= p <= 2 * u,
                    1 <= m <= 0x1_0000_0000,
            ;
        }
        (p * m) as i64
    } else {
        let d: i128 = two_to_exec((-n) as u32);
        proof {
            lemma_div_bounds(p as int, d as int, 0, 2 * u);
            assert(2 * u <= 2 * u * d) by (nonlinear_arith)
                requires
                    d >= 1,
                    u > 0,
            ;
        }
        floor_div(p, d) as i64
    }
}

/// `2^(a + b) == 2^a * 2^b`.
pub proof fn lemma_two_to_add(a: nat, b: nat)
    ensures
        two_to(a + b) == two_to(a) * two_to(b),
    decreases a,
{
    if a > 0 {
        lemma_two_to_add((a - 1) as nat, b);
        assert(two_to(a + b) == 2 * two_to((a - 1 + b) as nat));
        assert(2 * (two_to((a - 1) as nat) * two_to(b)) == (2 * two_to((a - 1) as nat)) * two_to(b))
            by (nonlinear_arith);
    }
}

/// The number of halvings that take `m >= 1` down to 1: `floor(log2(m))`.
pub open spec fn bit_length(m: int) -> nat
    decreases m,
{
    if m <= 1 {
        0
    } else {
        1 + bit_length(m / 2)
    }
}

/// `2^bit_length(m) <= m < 2^(bit_length(m) + 1)`.
pub proof fn lemma_bit_length(m: int)
    requires
        m >= 1,
    ensures
        two_to(bit_length(m)) <= m < two_to(bit_length(m) + 1),
    decreases m,
{
    if m > 1 {
        lemma_bit_length(m / 2);
        let k = bit_length(m / 2);
        assert(two_to(k + 1) == 2 * two_to(k));
        assert(two_to(k + 2) == 2 * two_to(k + 1));
    } else {
        assert(two_to(0) == 1);
        assert(two_to(1) == 2);
    }
}

/// `floor(log2(m))` for `m >= 1`.
pub fn bit_length_exec(m: i64) -> (r: u32)
    requires
        m >= 1,
    ensures
        r == bit_length(m as int),
        r <= 63,
{
    let mut v: i64 = m;
    let mut n: u32 = 0;
    proof {
        lemma_bit_length(m as int);
        lemma_two_to_monotone(bit_length(m as int));
    }
    while v > 1
        invariant
            1 <= v <= m,
            n + bit_length(v as int) == bit_length(m as int),
            n + bit_length(v as int) <= 63,
        decreases v,
    {
        proof {
            lemma_bit_length(v as int);
            lemma_bit_length(m as int);
            lemma_two_to_monotone(bit_length(m as int));
        }
        v = v / 2;
        n = n + 1;
    }
    proof {
        lemma_bit_length(m as int);
        lemma_two_to_monotone(bit_length(m as int));
    }
    n
}

proof fn lemma_two_to_monotone(n: nat)
    ensures
        n >= 63 ==> two_to(n) >= 0x8000_0000_0000_0000,
{
    if n >= 63 {
        lemma_two_to_values();
        reveal_with_fuel(two_to, 15);
        lemma_two_to_add(49, 14);
        lemma_two_to_le(63, n);
    }
}

/// Coefficients of the cubic that approximates `log2(1 + y)` on `[0, 1)`;
/// they sum to `UNITY`, so the fit is exact at both ends.
pub const LOG_B1: i64 = 93118;
/// Second coefficient of the `log2` cubic.
pub const LOG_B2: i64 = -37831;
/// Third coefficient of the `log2` cubic.
pub const LOG_B3: i64 = 10249;

/// `m` scaled by a power of two into `[UNITY, 2 * UNITY)`, given
/// `n == bit_length(m)`.
pub open spec fn mantissa(m: int, n: nat) -> int {
    if n >= 16 {
        m / two_to((n - 16) as nat)
    } else {
        m * two_to((16 - n) as nat)
    }
}

/// `log2(m / UNITY)` in fixed point, for `m >= 1`.
pub open spec fn log2(m: int) -> int {
    let u = UNITY as int;
    let n = bit_length(m);
    let y = mantissa(m, n) - u;
    (n - 16) * u + (LOG_B1 * y * u * u + LOG_B2 * y * y * u + LOG_B3 * y * y * y) / (u * u * u)
}

/// `2^a <= 2^b` for `a <= b`.
pub proof fn lemma_two_to_le(a: nat, b: nat)
    requires
        a <= b,
    ensures
        two_to(a) <= two_to(b),
{
    lemma_two_to_add(a, (b - a) as nat);
    lemma_two_to_positive((b - a) as nat);
    lemma_two_to_positive(a);
    assert(two_to(a) * two_to((b - a) as nat) >= two_to(a)) by (nonlinear_arith)
        requires
            two_to((b - a) as nat) >= 1,
            two_to(a) >= 1,
    ;
}

/// A few powers of two by value.
pub proof fn lemma_two_to_values()
    ensures
        two_to(16) == 0x10000,
        two_to(17) == 0x20000,
        two_to(49) == 0x2_0000_0000_0000,
{
    reveal_with_fuel(two_to, 18);
    lemma_two_to_bounds(32);
    assert(two_to(0) == 1);
    lemma_two_to_add(32, 17);
}

fn mantissa_exec(m: i64, n: u32) -> (x: i128)
    requires
        1 <= m <= 0x1_0000_0000_0000,
        n == bit_length(m as int),
    ensures
        x == mantissa(m as int, n as nat),
        UNITY <= x <= 2 * UNITY,
        n <= 48,
{
    let u: i128 = UNITY as i128;
    proof {
        lemma_bit_length(m as int);
        lemma_two_to_values();
        if n > 48 {
            lemma_two_to_le(49, n as nat);
        }
    }
    if n >= 16 {
        let d: i128 = two_to_exec(n - 16);
        proof {
            lemma_two_to_add(16, (n - 16) as nat);
            lemma_two_to_add(17, (n - 16) as nat);
            assert(two_to((17 + (n - 16)) as nat) == two_to((n + 1) as nat));
            lemma_div_bounds(m as int, d as int, u as int, 2 * u);
        }
        floor_div(m as i128, d)
    } else {
        let k: i128 = two_to_exec(16 - n);
        proof {
            lemma_two_to_add(n as nat, (16 - n) as nat);
            lemma_two_to_add((n + 1) as nat, (16 - n) as nat);
            assert(u <= m * k <= 2 * u) by (nonlinear_arith)
                requires
                    two_to(n as nat) <= m < two_to((n + 1) as nat),
                    two_to(n as nat) * k == 0x10000,
                    two_to((n + 1) as nat) * k == 0x20000,
                    k >= 1,
                    u == 0x10000,
            ;
        }
        m as i128 * k
    }
}

/// `log2(1 + y)` for a fixed-point `y` in `[0, 1]`, times `UNITY^3`.
fn log2_terms(y: i128) -> (r: i128)
    requires
        0 <= y <= UNITY,
    ensures
        r == LOG_B1 * y * UNITY * UNITY + LOG_B2 * y * y * UNITY + LOG_B3 * y * y * y,
        -0x1_0000_0000_0000_0000 <= r <= 0x2_0000_0000_0000_0000,
{
    let u: i128 = UNITY as i128;
    proof {
        assert(0 <= LOG_B1 * y * u * u <= LOG_B1 * u * u * u) by (nonlinear_arith)
            requires
                0 <= y <= u,
                u == 0x10000,
        ;
        assert(LOG_B2 * u * u * u <= LOG_B2 * y * y * u <= 0) by (nonlinear_arith)
            requires
                0 <= y <= u,
                u == 0x10000,
        ;
        assert(0 <= LOG_B3 * y * y * y <= LOG_B3 * u * u * u) by (nonlinear_arith)
            requires
                0 <= y <= u,
                u == 0x10000,
        ;
        assert(0 <= y * y <= 0x1_0000_0000) by (nonlinear_arith)
            requires
                0 <= y <= 0x10000,
        ;
        assert(0 <= y * y * y <= 0x1_0000_0000_0000) by (nonlinear_arith)
            requires
                0 <= y <= 0x10000,
        ;
    }
    let y2: i128 = y * y;
    let y3: i128 = y2 * y;
    proof {
        assert(LOG_B1 * y * u * u == LOG_B1 * (y * 0x1_0000_0000)) by (nonlinear_arith)
            requires
                u == 0x10000,
        ;
        assert(LOG_B2 * y2 * u == LOG_B2 * y * y * u) by (nonlinear_arith)
            requires
                y2 == y * y,
        ;
        assert(LOG_B3 * y3 == LOG_B3 * y * y * y) by (nonlinear_arith)
            requires
                y3 == y * y * y,
                y2 == y * y,
        ;
    }
    LOG_B1 as i128 * (y * 0x1_0000_0000) + LOG_B2 as i128 * (y2 * u) + LOG_B3 as i128 * y3
}

/// `log2(m / UNITY)` in fixed point, for `m` in `[1, 2^48]`.
pub fn log2_exec(m: i64) -> (r: i64)
    requires
        1 <= m <= 0x1_0000_0000_0000,
    ensures
        r == log2(m as int),
        -17 * UNITY <= r <= 34 * UNITY,
{
    let u: i128 = UNITY as i128;
    let n: u32 = bit_length_exec(m);
    let x: i128 = mantissa_exec(m, n);
    let num: i128 = log2_terms(x - u);
    let q: i128 = floor_div(num, u * u * u);
    proof {
        lemma_div_bounds(num as int, u * u * u, -u, 2 * u);
        assert(LOG_B2 * (x - u) * (x - u) * u == LOG_B2 * (x - u) * (x - u) * u);
    }
    ((n as i128 - 16) * u + q) as i64
}

} // verus!
