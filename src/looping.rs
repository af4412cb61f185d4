use vstd::prelude::*;

use crate::time::{index_at, index_at_exec};
use crate::tween::Tweenable;

verus! {

/// A loop region of source indices, from `start` up to `end`.
#[derive(Clone, Copy, Debug, PartialEq, Eq, Structural)]
pub struct LoopPoints {
    /// First index of the loop.
    pub start: usize,
    /// Index at which playback wraps back to `start`.
    pub end: usize,
}

impl LoopPoints {
    /// The region that stands for "no loop": all indices.
    pub open spec fn no_loop() -> LoopPoints {
        LoopPoints { start: 0, end: usize::MAX }
    }

    /// The region that stands for "no loop": all indices.
    pub fn whole() -> (r: LoopPoints)
        ensures
            r == LoopPoints::no_loop(),
    {
        LoopPoints { start: 0, end: usize::MAX }
    }

    /// Loop points from an index range.
    pub fn from_range(start: usize, end: usize) -> (r: LoopPoints)
        ensures
            r.start == start,
            r.end == end,
    {
        LoopPoints { start, end }
    }

    /// Loop points from a range of times, in flicks, at `sample_rate`.
    pub open spec fn from_times(start: i64, end: i64, sample_rate: u32) -> LoopPoints {
        LoopPoints { start: index_at(start, sample_rate), end: index_at(end, sample_rate) }
    }

    /// Loop points from a range of times, in flicks, at `sample_rate`.
    pub fn from_range_secs(start: i64, end: i64, sample_rate: u32) -> (r: LoopPoints)
        ensures
            r == LoopPoints::from_times(start, end, sample_rate),
    {
        LoopPoints {
            start: index_at_exec(start, sample_rate),
            end: index_at_exec(end, sample_rate),
        }
    }
}

impl Tweenable for LoopPoints {
    /// Both ends blended as indices.
    open spec fn blend(a: LoopPoints, b: LoopPoints, t: int) -> LoopPoints {
        LoopPoints {
            start: <usize as Tweenable>::blend(a.start, b.start, t),
            end: <usize as Tweenable>::blend(a.end, b.end, t),
        }
    }

    fn interpolate(a: LoopPoints, b: LoopPoints, t: i64) -> (r: LoopPoints) {
        LoopPoints {
            start: <usize as Tweenable>::interpolate(a.start, b.start, t),
            end: <usize as Tweenable>::interpolate(a.end, b.end, t),
        }
    }
}

} // verus!
