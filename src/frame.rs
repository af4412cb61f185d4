use vstd::prelude::*;

use crate::fixed::{clamp, floor_div, saturate_i32, UNITY};

verus! {

/// `x` saturated into the range of a sample.
pub open spec fn sat(x: int) -> i32 {
    clamp(x, i32::MIN as int, i32::MAX as int) as i32
}

/// One stereo sample: a left and a right channel value.
///
/// Channel arithmetic saturates at the ends of the `i32` range.
#[derive(Clone, Copy, Debug, PartialEq, Eq, Structural)]
pub struct Frame {
    /// Left channel value.
    pub left: i32,
    /// Right channel value.
    pub right: i32,
}

impl Frame {
    /// The silent frame.
    pub open spec fn silent() -> Frame {
        Frame { left: 0, right: 0 }
    }

    /// The silent frame.
    pub fn zero() -> (r: Frame)
        ensures
            r == Frame::silent(),
    {
        Frame { left: 0, right: 0 }
    }

    /// Channel-wise sum.
    pub open spec fn plus(self, o: Frame) -> Frame {
        Frame { left: sat(self.left + o.left), right: sat(self.right + o.right) }
    }

    /// Channel-wise difference.
    pub open spec fn minus(self, o: Frame) -> Frame {
        Frame { left: sat(self.left - o.left), right: sat(self.right - o.right) }
    }

    /// Both channels negated.
    pub open spec fn negated(self) -> Frame {
        Frame { left: sat(-self.left), right: sat(-self.right) }
    }

    /// Both channels multiplied by the fixed-point gain `g`, rounded down.
    pub open spec fn scaled(self, g: int) -> Frame {
        Frame {
            left: sat((self.left * g) / (UNITY as int)),
            right: sat((self.right * g) / (UNITY as int)),
        }
    }

    /// A frame from its two channel values.
    pub fn new(left: i32, right: i32) -> (r: Frame)
        ensures
            r.left == left,
            r.right == right,
    {
        Frame { left, right }
    }

    /// A frame with the same value on both channels.
    pub fn from_mono(value: i32) -> (r: Frame)
        ensures
            r.left == value,
            r.right == value,
    {
        Frame { left: value, right: value }
    }

    /// Channel-wise sum.
    pub fn add(self, o: Frame) -> (r: Frame)
        ensures
            r == self.plus(o),
    {
        Frame {
            left: saturate_i32(self.left as i128 + o.left as i128),
            right: saturate_i32(self.right as i128 + o.right as i128),
        }
    }

    /// Adds `o` to this frame in place.
    pub fn add_assign(&mut self, o: Frame)
        ensures
            *final(self) == old(self).plus(o),
    {
        *self = self.add(o);
    }

    /// Subtracts `o` from this frame in place.
    pub fn sub_assign(&mut self, o: Frame)
        ensures
            *final(self) == old(self).minus(o),
    {
        *self = self.sub(o);
    }

    /// Scales this frame in place by the fixed-point gain `gain`.
    pub fn mul_assign(&mut self, gain: i64)
        ensures
            *final(self) == old(self).scaled(gain as int),
    {
        *self = self.mul(gain);
    }

    /// Channel-wise difference.
    pub fn sub(self, o: Frame) -> (r: Frame)
        ensures
            r == self.minus(o),
    {
        Frame {
            left: saturate_i32(self.left as i128 - o.left as i128),
            right: saturate_i32(self.right as i128 - o.right as i128),
        }
    }

    /// Both channels negated.
    pub fn neg(self) -> (r: Frame)
        ensures
            r == self.negated(),
    {
        Frame { left: saturate_i32(-(self.left as i128)), right: saturate_i32(-(self.right as i128)) }
    }

    /// Both channels multiplied by the fixed-point gain `gain`.
    pub fn mul(self, gain: i64) -> (r: Frame)
        ensures
            r == self.scaled(gain as int),
    {
        proof {
            lemma_sample_times_gain(self.left as int, gain as int);
            lemma_sample_times_gain(self.right as int, gain as int);
        }
        Frame {
            left: saturate_i32(floor_div(self.left as i128 * gain as i128, UNITY as i128)),
            right: saturate_i32(floor_div(self.right as i128 * gain as i128, UNITY as i128)),
        }
    }
}

proof fn lemma_sample_times_gain(s: int, g: int)
    requires
        i32::MIN <= s <= i32::MAX,
        i64::MIN <= g <= i64::MAX,
    ensures
        -0x40_0000_0000_0000_0000_0000_0000 <= s * g <= 0x40_0000_0000_0000_0000_0000_0000,
{
    assert(-0x8000_0000 * 0x8000_0000_0000_0000 <= s * g <= 0x8000_0000 * 0x8000_0000_0000_0000)
        by (nonlinear_arith)
        requires
            -0x8000_0000 <= s <= 0x8000_0000,
            -0x8000_0000_0000_0000 <= g <= 0x8000_0000_0000_0000,
    ;
}

} // verus!
