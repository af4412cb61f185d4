use vstd::prelude::*;

use crate::easing::Easing;
use crate::fixed::{clamp, floor_div, saturate_i64, UNITY};
use crate::rate::PlaybackRate;

verus! {

/// What a command changes on a sound.
#[derive(Clone, Copy, Debug, PartialEq, Eq, Structural)]
pub enum Change {
    /// The volume, a fixed-point gain.
    Volume(i64),
    /// The playback rate.
    PlaybackRate(PlaybackRate),
    /// The pause state; it flips once the eased progress reaches one half.
    Pause(bool),
    /// The source index.
    Index(usize),
    /// The position, in flicks.
    Position(i64),
    /// The loop region, as a range of times in flicks.
    LoopSeconds(i64, i64),
    /// The loop region, as a range of source indices.
    LoopIndex(usize, usize),
}

/// A scheduled change: it waits `start_after` flicks, then moves its target
/// over `duration` flicks along an easing curve.
///
/// `start_after` counts down as time passes and goes on below zero, where
/// its negation is the time the command has been running.
#[derive(Clone, Copy, Debug, PartialEq, Eq, Structural)]
pub struct Command {
    /// What to change.
    pub change: Change,
    /// The curve of the motion.
    pub easing: Easing,
    /// Time left before the command starts, in flicks.
    pub start_after: i64,
    /// How long the command lasts, in flicks.
    pub duration: i64,
}

impl Command {
    /// Whether the command has started.
    pub open spec fn started(self) -> bool {
        self.start_after <= 0
    }

    /// The share of the duration that has elapsed, in `[0, UNITY]`; a
    /// command without a positive duration is complete at once.
    pub open spec fn progress(self) -> int {
        if self.duration <= 0 {
            UNITY as int
        } else {
            clamp(((-self.start_after) * UNITY) / (self.duration as int), 0, UNITY as int)
        }
    }

    /// The command after `dt` more flicks.
    pub open spec fn advanced(self, dt: int) -> Command {
        Command {
            start_after: clamp(self.start_after - dt, i64::MIN as int, i64::MAX as int) as i64,
            ..self
        }
    }

    /// Whether the command is still running: its elapsed time is below its
    /// duration.
    pub open spec fn running(self) -> bool {
        -self.start_after < self.duration
    }

    /// A command.
    pub fn new(change: Change, easing: Easing, start_after: i64, duration: i64) -> (r: Command)
        ensures
            r.change == change,
            r.easing == easing,
            r.start_after == start_after,
            r.duration == duration,
    {
        Command { change, easing, start_after, duration }
    }

    /// The command's easing curve at the fixed-point time `t`.
    pub fn value(&self, t: i64) -> (r: i64)
        ensures
            r == self.easing.value(t as int),
            -UNITY <= r <= 2 * UNITY,
    {
        self.easing.apply(t)
    }

    /// The share of the duration that has elapsed.
    pub fn progress_exec(&self) -> (r: i64)
        ensures
            r == self.progress(),
    {
        if self.duration <= 0 {
            UNITY
        } else {
            let elapsed: i128 = -(self.start_after as i128);
            proof {
                crate::easing::lemma_mul_abs(
                    elapsed as int,
                    UNITY as int,
                    0x8000_0000_0000_0000,
                    0x10000,
                );
            }
            let p: i128 = floor_div(elapsed * UNITY as i128, self.duration as i128);
            if p < 0 {
                0
            } else if p > UNITY as i128 {
                UNITY
            } else {
                p as i64
            }
        }
    }

    /// Lets `dt` flicks pass.
    pub fn advance(&mut self, dt: i64)
        ensures
            *final(self) == old(self).advanced(dt as int),
    {
        self.start_after = saturate_i64(self.start_after as i128 - dt as i128);
    }

    /// Whether the command is still running.
    pub fn is_running(&self) -> (r: bool)
        ensures
            r == self.running(),
    {
        -(self.start_after as i128) < self.duration as i128
    }
}

} // verus!
