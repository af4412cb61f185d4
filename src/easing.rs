use vstd::prelude::*;

use crate::curve::{
    exp2, exp2_exec, floor_sqrt, lemma_floor_sqrt_unique, lemma_unity_powers, power, two_to,
    sine_quarter, sine_quarter_exec, sine_turns,
    sine_turns_exec, sqrt_exec, unit_power, unit_power_exec,
};
use crate::fixed::{clamp, floor_div, lemma_div_bounds, UNITY};

verus! {

/// First constant of the back curves, `1.70158`, in fixed point.
pub const BACK_C1: i64 = 111515;
/// `BACK_C1 * 1.525`, for the in-out back curve, in fixed point.
pub const BACK_C2: i64 = 170060;

/// `|a * b| <= bound_a * bound_b` for `|a| <= bound_a` and `|b| <= bound_b`.
pub proof fn lemma_mul_abs(a: int, b: int, bound_a: int, bound_b: int)
    requires
        -bound_a <= a <= bound_a,
        -bound_b <= b <= bound_b,
    ensures
        -(bound_a * bound_b) <= a * b <= bound_a * bound_b,
{
    assert(-(bound_a * bound_b) <= a * b <= bound_a * bound_b) by (nonlinear_arith)
        requires
            -bound_a <= a <= bound_a,
            -bound_b <= b <= bound_b,
    ;
}

/// The polynomial ease-in curve `t^n`.
pub open spec fn poly_in(t: int, n: nat) -> int {
    unit_power(t, n)
}

/// The polynomial ease-out curve `1 - (1 - t)^n`.
pub open spec fn poly_out(t: int, n: nat) -> int {
    UNITY - unit_power(UNITY - t, n)
}

/// The polynomial ease-in-out curve: `(2t)^n / 2` on the first half,
/// `1 - (2 - 2t)^n / 2` on the second.
pub open spec fn poly_in_out(t: int, n: nat) -> int {
    if 2 * t < UNITY {
        unit_power(2 * t, n) / 2
    } else {
        UNITY - unit_power(2 * UNITY - 2 * t, n) / 2
    }
}

fn poly_in_exec(t: i64, n: u32) -> (r: i128)
    requires
        0 <= t <= UNITY,
        1 <= n <= 5,
    ensures
        r == poly_in(t as int, n as nat),
{
    unit_power_exec(t, n)
}

fn poly_out_exec(t: i64, n: u32) -> (r: i128)
    requires
        0 <= t <= UNITY,
        1 <= n <= 5,
    ensures
        r == poly_out(t as int, n as nat),
{
    UNITY as i128 - unit_power_exec(UNITY - t, n)
}

fn poly_in_out_exec(t: i64, n: u32) -> (r: i128)
    requires
        0 <= t <= UNITY,
        1 <= n <= 5,
    ensures
        r == poly_in_out(t as int, n as nat),
{
    if 2 * t < UNITY {
        floor_div(unit_power_exec(2 * t, n), 2)
    } else {
        UNITY as i128 - floor_div(unit_power_exec(2 * UNITY - 2 * t, n), 2)
    }
}

/// The bounce-out curve: four parabolic arcs, with the constants
/// `7.5625 = 121/16` and `2.75 = 11/4` written as exact fractions.
pub open spec fn bounce_out(t: int) -> int {
    let u = UNITY as int;
    if 11 * t < 4 * u {
        (11 * t) * (11 * t) / (16 * u)
    } else if 11 * t < 8 * u {
        ((11 * t - 6 * u) * (11 * t - 6 * u) + 12 * u * u) / (16 * u)
    } else if 11 * t < 10 * u {
        ((11 * t - 9 * u) * (11 * t - 9 * u) + 15 * u * u) / (16 * u)
    } else {
        ((22 * t - 21 * u) * (22 * t - 21 * u) + 63 * u * u) / (64 * u)
    }
}

/// The bounce-in curve, `1 - bounce_out(1 - t)`.
pub open spec fn bounce_in(t: int) -> int {
    UNITY - bounce_out(UNITY - t)
}

/// The bounce-in-out curve.
pub open spec fn bounce_in_out(t: int) -> int {
    if 2 * t < UNITY {
        (UNITY - bounce_out(UNITY - 2 * t)) / 2
    } else {
        (UNITY + bounce_out(2 * t - UNITY)) / 2
    }
}

fn bounce_out_exec(t: i64) -> (r: i128)
    requires
        0 <= t <= UNITY,
    ensures
        r == bounce_out(t as int),
        0 <= r <= 2 * UNITY,
{
    proof {
        lemma_bounce_out_bounds(t as int);
    }
    let u: i128 = UNITY as i128;
    let tw: i128 = t as i128;
    if 11 * tw < 4 * u {
        proof {
            lemma_mul_abs(11 * tw, 11 * tw, 0x100000, 0x100000);
        }
        floor_div((11 * tw) * (11 * tw), 16 * u)
    } else if 11 * tw < 8 * u {
        let d: i128 = 11 * tw - 6 * u;
        proof {
            lemma_mul_abs(d as int, d as int, 0x100000, 0x100000);
        }
        floor_div(d * d + 12 * u * u, 16 * u)
    } else if 11 * tw < 10 * u {
        let d: i128 = 11 * tw - 9 * u;
        proof {
            lemma_mul_abs(d as int, d as int, 0x100000, 0x100000);
        }
        floor_div(d * d + 15 * u * u, 16 * u)
    } else {
        let d: i128 = 22 * tw - 21 * u;
        proof {
            lemma_mul_abs(d as int, d as int, 0x200000, 0x200000);
        }
        floor_div(d * d + 63 * u * u, 64 * u)
    }
}

fn bounce_in_exec(t: i64) -> (r: i128)
    requires
        0 <= t <= UNITY,
    ensures
        r == bounce_in(t as int),
{
    UNITY as i128 - bounce_out_exec(UNITY - t)
}

fn bounce_in_out_exec(t: i64) -> (r: i128)
    requires
        0 <= t <= UNITY,
    ensures
        r == bounce_in_out(t as int),
{
    proof {
        lemma_bounce_out_bounds(UNITY - 2 * t);
        lemma_bounce_out_bounds(2 * t - UNITY);
    }
    if 2 * t < UNITY {
        floor_div(UNITY as i128 - bounce_out_exec(UNITY - 2 * t), 2)
    } else {
        floor_div(UNITY as i128 + bounce_out_exec(2 * t - UNITY), 2)
    }
}

proof fn lemma_bounce_out_bounds(t: int)
    ensures
        0 <= t <= UNITY ==> 0 <= bounce_out(t) <= 2 * UNITY,
{
    if 0 <= t <= UNITY {
        let u = UNITY as int;
        if 11 * t < 4 * u {
            lemma_mul_abs(11 * t, 11 * t, 4 * u, 4 * u);
            assert(0 <= (11 * t) * (11 * t)) by (nonlinear_arith);
            lemma_div_bounds((11 * t) * (11 * t), 16 * u, 0, 2 * u);
        } else if 11 * t < 8 * u {
            let d = 11 * t - 6 * u;
            lemma_mul_abs(d, d, 2 * u, 2 * u);
            assert(0 <= d * d) by (nonlinear_arith);
            lemma_div_bounds(d * d + 12 * u * u, 16 * u, 0, 2 * u);
        } else if 11 * t < 10 * u {
            let d = 11 * t - 9 * u;
            lemma_mul_abs(d, d, 2 * u, 2 * u);
            assert(0 <= d * d) by (nonlinear_arith);
            lemma_div_bounds(d * d + 15 * u * u, 16 * u, 0, 2 * u);
        } else {
            let d = 22 * t - 21 * u;
            lemma_mul_abs(d, d, 2 * u, 2 * u);
            assert(0 <= d * d) by (nonlinear_arith);
            lemma_div_bounds(d * d + 63 * u * u, 64 * u, 0, 2 * u);
        }
    }
}

/// The back-in curve, `c3 t^3 - c1 t^2` with `c3 = c1 + 1`.
pub open spec fn back_in(t: int) -> int {
    let u = UNITY as int;
    ((BACK_C1 + u) * t * t * t - BACK_C1 * t * t * u) / (u * u * u)
}

/// The back-out curve, `1 + c3 (t - 1)^3 + c1 (t - 1)^2`.
pub open spec fn back_out(t: int) -> int {
    let u = UNITY as int;
    let s = t - u;
    u + ((BACK_C1 + u) * s * s * s + BACK_C1 * s * s * u) / (u * u * u)
}

/// The back-in-out curve.
pub open spec fn back_in_out(t: int) -> int {
    let u = UNITY as int;
    let c = BACK_C2 + u;
    if 2 * t < u {
        let v = 2 * t;
        (v * v * (c * v - BACK_C2 * u)) / (2 * u * u * u)
    } else {
        let w = 2 * t - 2 * u;
        (w * w * (c * w + BACK_C2 * u)) / (2 * u * u * u) + u
    }
}

/// `c * x^3 + k * x^2 * UNITY` for `|x| <= UNITY`, with small `c` and `k`.
fn cubic_terms(c: i128, k: i128, x: i128) -> (r: i128)
    requires
        -0x10000 <= x <= 0x10000,
        -0x100000 <= c <= 0x100000,
        -0x100000 <= k <= 0x100000,
    ensures
        r == c * x * x * x + k * x * x * UNITY,
        -0x1000_0000_0000_0000_0000 <= r <= 0x1000_0000_0000_0000_0000,
{
    proof {
        lemma_mul_abs(x as int, x as int, 0x10000, 0x10000);
        lemma_mul_abs(x * x, x as int, 0x1_0000_0000, 0x10000);
        lemma_mul_abs(c as int, x * x * x, 0x100000, 0x1_0000_0000_0000);
        lemma_mul_abs(k as int, x * x, 0x100000, 0x1_0000_0000);
        lemma_mul_abs(k * (x * x), UNITY as int, 0x10_0000_0000_0000, 0x10000);
        assert(c * (x * x * x) == c * x * x * x) by (nonlinear_arith);
        assert(k * (x * x) * UNITY == k * x * x * UNITY) by (nonlinear_arith);
    }
    let x3: i128 = x * x * x;
    let x2: i128 = x * x;
    c * x3 + k * x2 * (UNITY as i128)
}

fn back_in_exec(t: i64) -> (r: i128)
    requires
        0 <= t <= UNITY,
    ensures
        r == back_in(t as int),
{
    let u: i128 = UNITY as i128;
    let n: i128 = cubic_terms(BACK_C1 as i128 + u, -(BACK_C1 as i128), t as i128);
    proof {
        let tt = t as int;
        assert(-(BACK_C1 as int) * tt * tt * u == -(BACK_C1 * tt * tt * u)) by (nonlinear_arith);
    }
    floor_div(n, u * u * u)
}

fn back_out_exec(t: i64) -> (r: i128)
    requires
        0 <= t <= UNITY,
    ensures
        r == back_out(t as int),
{
    let u: i128 = UNITY as i128;
    let n: i128 = cubic_terms(BACK_C1 as i128 + u, BACK_C1 as i128, t as i128 - u);
    u + floor_div(n, u * u * u)
}

fn back_in_out_exec(t: i64) -> (r: i128)
    requires
        0 <= t <= UNITY,
    ensures
        r == back_in_out(t as int),
{
    let u: i128 = UNITY as i128;
    let c: i128 = BACK_C2 as i128 + u;
    if 2 * t < UNITY {
        let v: i128 = 2 * t as i128;
        let n: i128 = cubic_terms(c, -(BACK_C2 as i128), v);
        proof {
            let vv = v as int;
            assert(vv * vv * (c * vv - BACK_C2 * u) == c * vv * vv * vv + (-(BACK_C2 as int)) * vv
                * vv * u) by (nonlinear_arith);
        }
        floor_div(n, 2 * u * u * u)
    } else {
        let w: i128 = 2 * t as i128 - 2 * u;
        let n: i128 = cubic_terms(c, BACK_C2 as i128, w);
        proof {
            let ww = w as int;
            assert(ww * ww * (c * ww + BACK_C2 * u) == c * ww * ww * ww + BACK_C2 * ww * ww * u)
                by (nonlinear_arith);
        }
        floor_div(n, 2 * u * u * u) + u
    }
}

/// The circular ease-in curve, `1 - sqrt(1 - t^2)`.
pub open spec fn circ_in(t: int) -> int {
    UNITY - floor_sqrt(UNITY * UNITY - t * t)
}

/// The circular ease-out curve, `sqrt(1 - (t - 1)^2)`.
pub open spec fn circ_out(t: int) -> int {
    floor_sqrt(UNITY * UNITY - (t - UNITY) * (t - UNITY))
}

/// The circular ease-in-out curve.
pub open spec fn circ_in_out(t: int) -> int {
    if 2 * t < UNITY {
        (UNITY - floor_sqrt(UNITY * UNITY - (2 * t) * (2 * t))) / 2
    } else {
        (floor_sqrt(UNITY * UNITY - (2 * UNITY - 2 * t) * (2 * UNITY - 2 * t)) + UNITY) / 2
    }
}

/// `sqrt(1 - x^2)` for `|x| <= 1`, in fixed point.
fn circle_exec(x: i64) -> (r: i64)
    requires
        -UNITY <= x <= UNITY,
    ensures
        r == floor_sqrt(UNITY * UNITY - x * x),
        0 <= r <= UNITY,
{
    proof {
        assert(0 <= x * x <= 0x1_0000_0000) by (nonlinear_arith)
            requires
                -0x10000 <= x <= 0x10000,
        ;
    }
    sqrt_exec(UNITY * UNITY - x * x)
}

fn circ_in_exec(t: i64) -> (r: i128)
    requires
        0 <= t <= UNITY,
    ensures
        r == circ_in(t as int),
{
    UNITY as i128 - circle_exec(t) as i128
}

fn circ_out_exec(t: i64) -> (r: i128)
    requires
        0 <= t <= UNITY,
    ensures
        r == circ_out(t as int),
{
    circle_exec(t - UNITY) as i128
}

fn circ_in_out_exec(t: i64) -> (r: i128)
    requires
        0 <= t <= UNITY,
    ensures
        r == circ_in_out(t as int),
{
    if 2 * t < UNITY {
        floor_div(UNITY as i128 - circle_exec(2 * t) as i128, 2)
    } else {
        floor_div(circle_exec(2 * UNITY - 2 * t) as i128 + UNITY as i128, 2)
    }
}

/// The sine ease-in curve, `1 - cos(t * pi / 2)`.
pub open spec fn sine_in(t: int) -> int {
    UNITY - sine_quarter(UNITY - t)
}

/// The sine ease-out curve, `sin(t * pi / 2)`.
pub open spec fn sine_out(t: int) -> int {
    sine_quarter(t)
}

/// The sine ease-in-out curve, `(1 - cos(t * pi)) / 2`.
pub open spec fn sine_in_out(t: int) -> int {
    if 2 * t <= UNITY {
        (UNITY - sine_quarter(UNITY - 2 * t)) / 2
    } else {
        (UNITY + sine_quarter(2 * t - UNITY)) / 2
    }
}

fn sine_in_out_exec(t: i64) -> (r: i128)
    requires
        0 <= t <= UNITY,
    ensures
        r == sine_in_out(t as int),
{
    if 2 * t <= UNITY {
        floor_div(UNITY as i128 - sine_quarter_exec(UNITY - 2 * t) as i128, 2)
    } else {
        floor_div(UNITY as i128 + sine_quarter_exec(2 * t - UNITY) as i128, 2)
    }
}

/// The exponential ease-in curve, `2^(10t - 10)`, pinned to 0 at `t == 0`.
pub open spec fn expo_in(t: int) -> int {
    if t <= 0 {
        0
    } else {
        exp2(10 * t - 10 * UNITY)
    }
}

/// The exponential ease-out curve, `1 - 2^(-10t)`, pinned to 1 at `t == 1`.
pub open spec fn expo_out(t: int) -> int {
    if t >= UNITY {
        UNITY as int
    } else {
        UNITY - exp2(0 - 10 * t)
    }
}

/// The exponential ease-in-out curve.
pub open spec fn expo_in_out(t: int) -> int {
    if t <= 0 {
        0
    } else if t >= UNITY {
        UNITY as int
    } else if 2 * t < UNITY {
        exp2(20 * t - 10 * UNITY) / 2
    } else {
        (2 * UNITY - exp2(10 * UNITY - 20 * t)) / 2
    }
}

fn expo_in_exec(t: i64) -> (r: i128)
    requires
        0 <= t <= UNITY,
    ensures
        r == expo_in(t as int),
{
    if t <= 0 {
        0
    } else {
        exp2_exec(10 * t - 10 * UNITY) as i128
    }
}

fn expo_out_exec(t: i64) -> (r: i128)
    requires
        0 <= t <= UNITY,
    ensures
        r == expo_out(t as int),
{
    if t >= UNITY {
        UNITY as i128
    } else {
        UNITY as i128 - exp2_exec(0 - 10 * t) as i128
    }
}

fn expo_in_out_exec(t: i64) -> (r: i128)
    requires
        0 <= t <= UNITY,
    ensures
        r == expo_in_out(t as int),
{
    if t <= 0 {
        0
    } else if t >= UNITY {
        UNITY as i128
    } else if 2 * t < UNITY {
        floor_div(exp2_exec(20 * t - 10 * UNITY) as i128, 2)
    } else {
        floor_div(2 * UNITY as i128 - exp2_exec(10 * UNITY - 20 * t) as i128, 2)
    }
}

/// The elastic ease-in curve, `-2^(10t - 10) sin((10t - 10.75) 2pi/3)`,
/// the angle counted in quarter turns: `(40t - 43) / 3`.
pub open spec fn elastic_in(t: int) -> int {
    let u = UNITY as int;
    if t <= 0 {
        0
    } else if t >= u {
        u
    } else {
        -(exp2(10 * t - 10 * u) * sine_turns((40 * t - 43 * u) / 3)) / u
    }
}

/// The elastic ease-out curve, `2^(-10t) sin((10t - 0.75) 2pi/3) + 1`.
pub open spec fn elastic_out(t: int) -> int {
    let u = UNITY as int;
    if t <= 0 {
        0
    } else if t >= u {
        u
    } else {
        (exp2(0 - 10 * t) * sine_turns((40 * t - 3 * u) / 3)) / u + u
    }
}

/// The elastic ease-in-out curve, with the angle `(20t - 11.125) 2pi/4.5`,
/// that is `(160t - 89) / 9` quarter turns.
pub open spec fn elastic_in_out(t: int) -> int {
    let u = UNITY as int;
    if t <= 0 {
        0
    } else if t >= u {
        u
    } else if 2 * t < u {
        -(exp2(20 * t - 10 * u) * sine_turns((160 * t - 89 * u) / 9)) / (2 * u)
    } else {
        (exp2(10 * u - 20 * t) * sine_turns((160 * t - 89 * u) / 9)) / (2 * u) + u
    }
}

/// `2^(e / UNITY) * sin(q * pi / 2)`, in fixed point times `UNITY`.
fn damped_sine(e: i64, q: i64) -> (r: i128)
    requires
        -0x100_0000_0000 <= q <= 0x100_0000_0000,
    ensures
        r == exp2(e as int) * sine_turns(q as int),
        -0x2_0000_0000_0000_0000 <= r <= 0x2_0000_0000_0000_0000,
{
    let a: i64 = exp2_exec(e);
    let b: i64 = sine_turns_exec(q);
    proof {
        lemma_mul_abs(a as int, b as int, 0x2_0000_0000_0000, 0x10000);
    }
    a as i128 * b as i128
}

fn elastic_in_exec(t: i64) -> (r: i128)
    requires
        0 <= t <= UNITY,
    ensures
        r == elastic_in(t as int),
{
    let u: i128 = UNITY as i128;
    if t <= 0 {
        0
    } else if t >= UNITY {
        u
    } else {
        let q: i128 = floor_div(40 * t as i128 - 43 * u, 3);
        proof {
            lemma_div_bounds(40 * t - 43 * u, 3, -0x100_0000, 0x100_0000);
        }
        floor_div(-damped_sine(10 * t - 10 * UNITY, q as i64), u)
    }
}

fn elastic_out_exec(t: i64) -> (r: i128)
    requires
        0 <= t <= UNITY,
    ensures
        r == elastic_out(t as int),
{
    let u: i128 = UNITY as i128;
    if t <= 0 {
        0
    } else if t >= UNITY {
        u
    } else {
        let q: i128 = floor_div(40 * t as i128 - 3 * u, 3);
        proof {
            lemma_div_bounds(40 * t - 3 * u, 3, -0x100_0000, 0x100_0000);
        }
        floor_div(damped_sine(0 - 10 * t, q as i64), u) + u
    }
}

fn elastic_in_out_exec(t: i64) -> (r: i128)
    requires
        0 <= t <= UNITY,
    ensures
        r == elastic_in_out(t as int),
{
    let u: i128 = UNITY as i128;
    if t <= 0 {
        0
    } else if t >= UNITY {
        u
    } else {
        let q: i128 = floor_div(160 * t as i128 - 89 * u, 9);
        proof {
            lemma_div_bounds(160 * t - 89 * u, 9, -0x100_0000, 0x100_0000);
        }
        if 2 * t < UNITY {
            floor_div(-damped_sine(20 * t - 10 * UNITY, q as i64), 2 * u)
        } else {
            floor_div(damped_sine(10 * UNITY - 20 * t, q as i64), 2 * u) + u
        }
    }
}

/// A curve that shapes the progress of a tween: it maps normalized time in
/// `[0, 1]` to a value that starts at 0 and ends at 1 (`Reverse` runs the
/// other way), possibly overshooting in between. Both are in fixed point.
#[derive(Clone, Copy, Debug, PartialEq, Eq, Structural)]
pub enum Easing {
    /// Linear easing, `t`.
    Linear,
    /// A linear easing that goes from 1 to 0, `1 - t`.
    Reverse,
    /// Back ease-in.
    BackIn,
    /// Back ease-out.
    BackOut,
    /// Back ease-in-out.
    BackInOut,
    /// Bounce ease-in.
    BounceIn,
    /// Bounce ease-out.
    BounceOut,
    /// Bounce ease-in-out.
    BounceInOut,
    /// Circular ease-in.
    CircIn,
    /// Circular ease-out.
    CircOut,
    /// Circular ease-in-out.
    CircInOut,
    /// Cubic ease-in.
    CubicIn,
    /// Cubic ease-out.
    CubicOut,
    /// Cubic ease-in-out.
    CubicInOut,
    /// Elastic ease-in.
    ElasticIn,
    /// Elastic ease-out.
    ElasticOut,
    /// Elastic ease-in-out.
    ElasticInOut,
    /// Exponential ease-in.
    ExpoIn,
    /// Exponential ease-out.
    ExpoOut,
    /// Exponential ease-in-out.
    ExpoInOut,
    /// Quadratic ease-in.
    QuadIn,
    /// Quadratic ease-out.
    QuadOut,
    /// Quadratic ease-in-out.
    QuadInOut,
    /// Quartic ease-in.
    QuartIn,
    /// Quartic ease-out.
    QuartOut,
    /// Quartic ease-in-out.
    QuartInOut,
    /// Quintic ease-in.
    QuintIn,
    /// Quintic ease-out.
    QuintOut,
    /// Quintic ease-in-out.
    QuintInOut,
    /// Sine ease-in.
    SineIn,
    /// Sine ease-out.
    SineOut,
    /// Sine ease-in-out.
    SineInOut,
}

/// `x` held within the range that easing values may take, `[-1, 2]`.
pub open spec fn confine(x: int) -> int {
    clamp(x, -UNITY as int, 2 * UNITY)
}

impl Easing {
    /// The curve's value at `t` in `[0, UNITY]`.
    pub open spec fn curve(self, t: int) -> int {
        match self {
            Easing::Linear => t,
            Easing::Reverse => UNITY - t,
            Easing::BackIn => back_in(t),
            Easing::BackOut => back_out(t),
            Easing::BackInOut => back_in_out(t),
            Easing::BounceIn => bounce_in(t),
            Easing::BounceOut => bounce_out(t),
            Easing::BounceInOut => bounce_in_out(t),
            Easing::CircIn => circ_in(t),
            Easing::CircOut => circ_out(t),
            Easing::CircInOut => circ_in_out(t),
            Easing::CubicIn => poly_in(t, 3),
            Easing::CubicOut => poly_out(t, 3),
            Easing::CubicInOut => poly_in_out(t, 3),
            Easing::ElasticIn => elastic_in(t),
            Easing::ElasticOut => elastic_out(t),
            Easing::ElasticInOut => elastic_in_out(t),
            Easing::ExpoIn => expo_in(t),
            Easing::ExpoOut => expo_out(t),
            Easing::ExpoInOut => expo_in_out(t),
            Easing::QuadIn => poly_in(t, 2),
            Easing::QuadOut => poly_out(t, 2),
            Easing::QuadInOut => poly_in_out(t, 2),
            Easing::QuartIn => poly_in(t, 4),
            Easing::QuartOut => poly_out(t, 4),
            Easing::QuartInOut => poly_in_out(t, 4),
            Easing::QuintIn => poly_in(t, 5),
            Easing::QuintOut => poly_out(t, 5),
            Easing::QuintInOut => poly_in_out(t, 5),
            Easing::SineIn => sine_in(t),
            Easing::SineOut => sine_out(t),
            Easing::SineInOut => sine_in_out(t),
        }
    }

    /// The curve's value at `t`, with `t` first held within `[0, UNITY]` and
    /// the result held within `[-UNITY, 2 * UNITY]`.
    pub open spec fn value(self, t: int) -> int {
        confine(self.curve(clamp(t, 0, UNITY as int)))
    }

    /// Applies the curve at the fixed-point time `t`.
    pub fn apply(self, t: i64) -> (r: i64)
        ensures
            r == self.value(t as int),
            -UNITY <= r <= 2 * UNITY,
    {
        let t: i64 = if t < 0 {
            0
        } else if t > UNITY {
            UNITY
        } else {
            t
        };
        let v: i128 = match self {
            Easing::Linear => t as i128,
            Easing::Reverse => UNITY as i128 - t as i128,
            Easing::BackIn => back_in_exec(t),
            Easing::BackOut => back_out_exec(t),
            Easing::BackInOut => back_in_out_exec(t),
            Easing::BounceIn => bounce_in_exec(t),
            Easing::BounceOut => bounce_out_exec(t),
            Easing::BounceInOut => bounce_in_out_exec(t),
            Easing::CircIn => circ_in_exec(t),
            Easing::CircOut => circ_out_exec(t),
            Easing::CircInOut => circ_in_out_exec(t),
            Easing::CubicIn => poly_in_exec(t, 3),
            Easing::CubicOut => poly_out_exec(t, 3),
            Easing::CubicInOut => poly_in_out_exec(t, 3),
            Easing::ElasticIn => elastic_in_exec(t),
            Easing::ElasticOut => elastic_out_exec(t),
            Easing::ElasticInOut => elastic_in_out_exec(t),
            Easing::ExpoIn => expo_in_exec(t),
            Easing::ExpoOut => expo_out_exec(t),
            Easing::ExpoInOut => expo_in_out_exec(t),
            Easing::QuadIn => poly_in_exec(t, 2),
            Easing::QuadOut => poly_out_exec(t, 2),
            Easing::QuadInOut => poly_in_out_exec(t, 2),
            Easing::QuartIn => poly_in_exec(t, 4),
            Easing::QuartOut => poly_out_exec(t, 4),
            Easing::QuartInOut => poly_in_out_exec(t, 4),
            Easing::QuintIn => poly_in_exec(t, 5),
            Easing::QuintOut => poly_out_exec(t, 5),
            Easing::QuintInOut => poly_in_out_exec(t, 5),
            Easing::SineIn => UNITY as i128 - sine_quarter_exec(UNITY - t) as i128,
            Easing::SineOut => sine_quarter_exec(t) as i128,
            Easing::SineInOut => sine_in_out_exec(t),
        };
        if v < -(UNITY as i128) {
            -UNITY
        } else if v > 2 * UNITY as i128 {
            2 * UNITY
        } else {
            v as i64
        }
    }
}

/// Every curve but `Reverse` starts at 0 and ends at 1; `Reverse` runs from 1
/// to 0.
pub proof fn lemma_curve_ends(e: Easing)
    ensures
        e != Easing::Reverse ==> e.value(0) == 0 && e.value(UNITY as int) == UNITY,
        e == Easing::Reverse ==> e.value(0) == UNITY && e.value(UNITY as int) == 0,
{
    lemma_curve_ends_at(e);
}

proof fn lemma_curve_ends_at(e: Easing)
    ensures
        e != Easing::Reverse ==> e.curve(0) == 0 && e.curve(UNITY as int) == UNITY,
        e == Easing::Reverse ==> e.curve(0) == UNITY && e.curve(UNITY as int) == 0,
{
    let u = UNITY as int;
    lemma_unity_powers();
    assert(power(0, 1) == 0 && power(0, 2) == 0 && power(0, 3) == 0 && power(0, 4) == 0 && power(
        0,
        5,
    ) == 0) by {
        reveal_with_fuel(power, 6);
    }
    assert(unit_power(u, 2) == u && unit_power(u, 3) == u && unit_power(u, 4) == u && unit_power(
        u,
        5,
    ) == u);
    assert(unit_power(0, 2) == 0 && unit_power(0, 3) == 0 && unit_power(0, 4) == 0 && unit_power(
        0,
        5,
    ) == 0);
    assert(bounce_out(0) == 0);
    assert((22 * u - 21 * u) * (22 * u - 21 * u) + 63 * u * u == u * (64 * u)) by (nonlinear_arith);
    crate::fixed::lemma_mul_div_cancel(u, 64 * u);
    assert(bounce_out(u) == u);
    assert(back_out(0) == 0) by (nonlinear_arith)
        requires
            u == 0x10000,
            back_out(0) == u + ((BACK_C1 + u) * (0 - u) * (0 - u) * (0 - u) + BACK_C1 * (0 - u) * (0
                - u) * u) / (u * u * u),
    ;
    assert(back_in(u) == u) by (nonlinear_arith)
        requires
            u == 0x10000,
            back_in(u) == ((BACK_C1 + u) * u * u * u - BACK_C1 * u * u * u) / (u * u * u),
    ;
    lemma_floor_sqrt_unique(u * u, u);
    lemma_floor_sqrt_unique(0, 0);
    assert(sine_quarter(0) == 0);
    assert(4 * (u * (2 * u - u)) * u == u * (5 * u * u - u * (2 * u - u))) by (nonlinear_arith);
    crate::fixed::lemma_mul_div_cancel(u, 5 * u * u - u * (2 * u - u));
    assert(sine_quarter(u) == u);
    assert(two_to(0) == 1);
    assert(exp2(0) == u) by {
        assert(0int / u == 0);
        assert(0int % u == 0);
    }
    match e {
        Easing::Reverse => {},
        Easing::Linear => {
            assert(e.curve(0) == 0);
            assert(e.curve(u) == u);
        },
        Easing::BackIn => {
            assert(e.curve(0) == 0);
            assert(e.curve(u) == u);
        },
        Easing::BackOut => {
            assert(e.curve(0) == 0);
            assert(e.curve(u) == u);
        },
        Easing::BackInOut => {
            let w = 2 * u - 2 * u;
            assert(w * w * ((BACK_C2 + u) * w + BACK_C2 * u) == 0) by (nonlinear_arith)
                requires
                    w == 0,
            ;
            assert(0int * 0 * ((BACK_C2 + u) * 0 - BACK_C2 * u) == 0);
            assert(e.curve(0) == 0);
            assert(e.curve(u) == u);
        },
        Easing::BounceIn => {
            assert(e.curve(0) == 0);
            assert(e.curve(u) == u);
        },
        Easing::BounceOut => {
            assert(e.curve(0) == 0);
            assert(e.curve(u) == u);
        },
        Easing::BounceInOut => {
            assert(e.curve(0) == 0);
            assert(e.curve(u) == u);
        },
        Easing::CircIn => {
            assert(e.curve(0) == 0);
            assert(e.curve(u) == u);
        },
        Easing::CircOut => {
            assert(e.curve(0) == 0);
            assert(e.curve(u) == u);
        },
        Easing::CircInOut => {
            assert(e.curve(0) == 0);
            assert(e.curve(u) == u);
        },
        Easing::CubicIn => {
            assert(e.curve(0) == 0);
            assert(e.curve(u) == u);
        },
        Easing::CubicOut => {
            assert(e.curve(0) == 0);
            assert(e.curve(u) == u);
        },
        Easing::CubicInOut => {
            assert(e.curve(0) == 0);
            assert(e.curve(u) == u);
        },
        Easing::ElasticIn => {
            assert(e.curve(0) == 0);
            assert(e.curve(u) == u);
        },
        Easing::ElasticOut => {
            assert(e.curve(0) == 0);
            assert(e.curve(u) == u);
        },
        Easing::ElasticInOut => {
            assert(e.curve(0) == 0);
            assert(e.curve(u) == u);
        },
        Easing::ExpoIn => {
            assert(e.curve(0) == 0);
            assert(e.curve(u) == u);
        },
        Easing::ExpoOut => {
            assert(e.curve(0) == 0);
            assert(e.curve(u) == u);
        },
        Easing::ExpoInOut => {
            assert(e.curve(0) == 0);
            assert(e.curve(u) == u);
        },
        Easing::QuadIn => {
            assert(e.curve(0) == 0);
            assert(e.curve(u) == u);
        },
        Easing::QuadOut => {
            assert(e.curve(0) == 0);
            assert(e.curve(u) == u);
        },
        Easing::QuadInOut => {
            assert(e.curve(0) == 0);
            assert(e.curve(u) == u);
        },
        Easing::QuartIn => {
            assert(e.curve(0) == 0);
            assert(e.curve(u) == u);
        },
        Easing::QuartOut => {
            assert(e.curve(0) == 0);
            assert(e.curve(u) == u);
        },
        Easing::QuartInOut => {
            assert(e.curve(0) == 0);
            assert(e.curve(u) == u);
        },
        Easing::QuintIn => {
            assert(e.curve(0) == 0);
            assert(e.curve(u) == u);
        },
        Easing::QuintOut => {
            assert(e.curve(0) == 0);
            assert(e.curve(u) == u);
        },
        Easing::QuintInOut => {
            assert(e.curve(0) == 0);
            assert(e.curve(u) == u);
        },
        Easing::SineIn => {
            assert(e.curve(0) == 0);
            assert(e.curve(u) == u);
        },
        Easing::SineOut => {
            assert(e.curve(0) == 0);
            assert(e.curve(u) == u);
        },
        Easing::SineInOut => {
            assert(e.curve(0) == 0);
            assert(e.curve(u) == u);
        },
    }
}

} // verus!
