use vstd::prelude::*;

use crate::fixed::{blend_factor, clamp, lerp, lerp_wide, saturate_i64, saturate_usize};

verus! {

/// A value that a tween can move between two end points.
pub trait Tweenable: Sized + Copy {
    /// The value a fraction `t` of the way from `a` to `b`.
    spec fn blend(a: Self, b: Self, t: int) -> Self;

    /// The value a fixed-point fraction `t` of the way from `a` to `b`.
    fn interpolate(a: Self, b: Self, t: i64) -> (r: Self)
        requires
            blend_factor(t as int),
        ensures
            r == Self::blend(a, b, t as int),
    ;
}

impl Tweenable for i64 {
    /// A linear blend, saturated into the range of `i64`.
    open spec fn blend(a: i64, b: i64, t: int) -> i64 {
        clamp(lerp(a as int, b as int, t), i64::MIN as int, i64::MAX as int) as i64
    }

    fn interpolate(a: i64, b: i64, t: i64) -> (r: i64) {
        saturate_i64(lerp_wide(a, b, t))
    }
}

impl Tweenable for usize {
    /// A linear blend, saturated into the range of `usize`.
    open spec fn blend(a: usize, b: usize, t: int) -> usize {
        clamp(lerp(a as int, b as int, t), 0, usize::MAX as int) as usize
    }

    fn interpolate(a: usize, b: usize, t: i64) -> (r: usize) {
        saturate_usize(lerp_usize(a, b, t))
    }
}

/// The linear blend of two `usize` values by a blend factor.
pub fn lerp_usize(a: usize, b: usize, t: i64) -> (r: i128)
    requires
        blend_factor(t as int),
    ensures
        r == lerp(a as int, b as int, t as int),
{
    let u: i128 = crate::fixed::UNITY as i128;
    let wa: i128 = u - t as i128;
    let wb: i128 = t as i128;
    proof {
        assert(-0x1_0000_0000_0000_0000 * 0x30000 <= a * wa <= 0x1_0000_0000_0000_0000 * 0x30000)
            by (nonlinear_arith)
            requires
                0 <= a <= 0x1_0000_0000_0000_0000,
                -0x30000 <= wa <= 0x30000,
        ;
        assert(-0x1_0000_0000_0000_0000 * 0x30000 <= b * wb <= 0x1_0000_0000_0000_0000 * 0x30000)
            by (nonlinear_arith)
            requires
                0 <= b <= 0x1_0000_0000_0000_0000,
                -0x30000 <= wb <= 0x30000,
        ;
    }
    crate::fixed::floor_div(a as i128 * wa + b as i128 * wb, u)
}

/// A playback attribute: its current, tween-affected value, and its resting
/// value. Without a running tween the two are equal.
#[derive(Clone, Copy, Debug)]
pub struct Parameter<T: Tweenable> {
    /// The current value; tweens move it.
    pub value: T,
    /// The value before the last tween started.
    pub base_value: T,
}

impl<T: Tweenable> Parameter<T> {
    /// A parameter resting at `value`.
    pub fn new(value: T) -> (r: Parameter<T>)
        ensures
            r.value == value,
            r.base_value == value,
    {
        Parameter { value, base_value: value }
    }

    /// Sets a new value, keeping the previous one as the base to tween from.
    pub fn start_tween(&mut self, value: T)
        ensures
            final(self).base_value == old(self).value,
            final(self).value == value,
    {
        self.base_value = self.value;
        self.value = value;
    }

    /// Ends any tweening: the current value becomes the resting value.
    pub fn stop(&mut self)
        ensures
            final(self).base_value == old(self).value,
            final(self).value == old(self).value,
    {
        self.base_value = self.value;
    }

    /// Moves the value a fraction `t` of the way from the base to `target`.
    pub fn update(&mut self, target: T, t: i64)
        requires
            blend_factor(t as int),
        ensures
            final(self).base_value == old(self).base_value,
            final(self).value == T::blend(old(self).base_value, target, t as int),
    {
        self.value = T::interpolate(self.base_value, target, t);
    }
}

} // verus!
