use vstd::prelude::*;

use crate::curve::{exp2, exp2_exec, log2, log2_exec};
use crate::fixed::{clamp, floor_div, saturate_i64, UNITY};
use crate::tween::Tweenable;

verus! {

/// The largest factor magnitude that a pitch is taken from, `2^32` in fixed
/// point; larger factors count as this one.
pub const MAX_PITCH_FACTOR: i64 = 0x1_0000_0000_0000;

/// How quickly a sound plays, in one of two forms.
#[derive(Clone, Copy, Debug, PartialEq, Eq, Structural)]
pub enum PlaybackRate {
    /// A fixed-point speed factor: `UNITY` is the recorded speed, twice that
    /// plays twice as fast, and a negative factor plays backwards.
    Factor(i64),
    /// A fixed-point pitch shift in semitones; the speed factor is
    /// `2^(semitones / 12)`.
    Semitones(i64),
}

/// `-x` saturated into the range of `i64`.
pub open spec fn negated(x: i64) -> i64 {
    clamp(-x, i64::MIN as int, i64::MAX as int) as i64
}

impl PlaybackRate {
    /// The recorded speed.
    pub open spec fn normal() -> PlaybackRate {
        PlaybackRate::Factor(UNITY)
    }

    /// The speed factor, in fixed point.
    pub open spec fn factor(self) -> int {
        match self {
            PlaybackRate::Factor(f) => f as int,
            PlaybackRate::Semitones(s) => exp2(s / 12),
        }
    }

    /// The pitch shift in semitones, in fixed point. A pitch has no
    /// direction, so the sign of a factor is dropped, and its magnitude is
    /// held within `[1, MAX_PITCH_FACTOR]`.
    pub open spec fn semitones(self) -> int {
        match self {
            PlaybackRate::Factor(f) => {
                let m = clamp(if f < 0 { -f } else { f as int }, 1, MAX_PITCH_FACTOR as int);
                12 * log2(m)
            },
            PlaybackRate::Semitones(s) => s as int,
        }
    }

    /// The same rate with its sign flipped.
    pub open spec fn reversed(self) -> PlaybackRate {
        match self {
            PlaybackRate::Factor(f) => PlaybackRate::Factor(negated(f)),
            PlaybackRate::Semitones(s) => PlaybackRate::Semitones(negated(s)),
        }
    }

    /// The speed factor, in fixed point.
    pub fn as_factor(self) -> (r: i64)
        ensures
            r == self.factor(),
            self is Semitones ==> 0 <= r <= 0x2_0000_0000_0000,
    {
        match self {
            PlaybackRate::Factor(f) => f,
            PlaybackRate::Semitones(s) => exp2_exec(floor_div(s as i128, 12) as i64),
        }
    }

    /// The pitch shift in semitones, in fixed point.
    pub fn as_semitones(self) -> (r: i64)
        ensures
            r == self.semitones(),
    {
        match self {
            PlaybackRate::Factor(f) => {
                let a: i128 = if f < 0 {
                    -(f as i128)
                } else {
                    f as i128
                };
                let m: i64 = if a < 1 {
                    1
                } else if a > MAX_PITCH_FACTOR as i128 {
                    MAX_PITCH_FACTOR
                } else {
                    a as i64
                };
                12 * log2_exec(m)
            },
            PlaybackRate::Semitones(s) => s,
        }
    }

    /// The same rate playing the other way.
    pub fn reverse(self) -> (r: PlaybackRate)
        ensures
            r == self.reversed(),
    {
        match self {
            PlaybackRate::Factor(f) => PlaybackRate::Factor(saturate_i64(-(f as i128))),
            PlaybackRate::Semitones(s) => PlaybackRate::Semitones(saturate_i64(-(s as i128))),
        }
    }
}

impl Default for PlaybackRate {
    /// The recorded speed.
    fn default() -> (r: PlaybackRate)
        ensures
            r == PlaybackRate::normal(),
    {
        PlaybackRate::Factor(UNITY)
    }
}

impl Tweenable for PlaybackRate {
    /// A blend in the form of `a`, with `b` first converted to that form.
    open spec fn blend(a: PlaybackRate, b: PlaybackRate, t: int) -> PlaybackRate {
        match a {
            PlaybackRate::Factor(f) => PlaybackRate::Factor(
                <i64 as Tweenable>::blend(f, b.factor() as i64, t),
            ),
            PlaybackRate::Semitones(s) => PlaybackRate::Semitones(
                <i64 as Tweenable>::blend(s, b.semitones() as i64, t),
            ),
        }
    }

    fn interpolate(a: PlaybackRate, b: PlaybackRate, t: i64) -> (r: PlaybackRate) {
        match a {
            PlaybackRate::Factor(f) => PlaybackRate::Factor(
                <i64 as Tweenable>::interpolate(f, b.as_factor(), t),
            ),
            PlaybackRate::Semitones(s) => PlaybackRate::Semitones(
                <i64 as Tweenable>::interpolate(s, b.as_semitones(), t),
            ),
        }
    }
}

} // verus!
