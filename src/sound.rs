use std::sync::Arc;

use vstd::prelude::*;

use crate::command::{Change, Command};
use crate::fixed::{blend_factor, clamp, UNITY};
use crate::frame::Frame;
use crate::looping::LoopPoints;
use crate::rate::PlaybackRate;
use crate::resampler::{lemma_pushed_window, Resampler, ResamplerFrame};
use crate::time::{index_at, index_at_exec, tick_length, time_of, time_of_exec, FLICKS_PER_SECOND};
use crate::tween::{Parameter, Tweenable};

verus! {

/// The abstract state of a [`Sound`].
pub struct SoundView {
    /// Source sample rate.
    pub sample_rate: u32,
    /// The source frames.
    pub frames: Seq<Frame>,
    /// Whether playback is paused.
    pub paused: bool,
    /// The playback cursor, a source index.
    pub index: Parameter<usize>,
    /// The resampler window.
    pub resampler: Resampler,
    /// The playback rate.
    pub playback_rate: Parameter<PlaybackRate>,
    /// The fixed-point offset between source samples, in `[0, UNITY)`.
    pub fractional_position: int,
    /// The gain applied to samples as they enter the resampler.
    pub volume: Parameter<i64>,
    /// The live commands, in the order they were added.
    pub commands: Seq<Command>,
    /// The loop region.
    pub loop_points: Parameter<LoopPoints>,
    /// Whether looping is enabled.
    pub loop_enabled: bool,
}

impl SoundView {
    /// Whether the playback rate runs backwards.
    pub open spec fn backwards(self) -> bool {
        self.playback_rate.value.factor() < 0
    }

    /// Whether the cursor has left the buffer in the direction of play:
    /// past the last frame going forwards, or at the first going backwards.
    pub open spec fn finished(self) -> bool {
        self.index.value >= self.frames.len() || (self.backwards() && self.index.value == 0)
    }

    /// The frame at source index `i`, scaled by the current volume; silence
    /// outside the buffer.
    pub open spec fn sample_at(self, i: usize) -> Frame {
        if i < self.frames.len() {
            self.frames[i as int].scaled(self.volume.value as int)
        } else {
            Frame::silent()
        }
    }

    /// The state after pushing the frame under the cursor to the resampler.
    pub open spec fn with_current_pushed(self) -> SoundView {
        SoundView {
            resampler: self.resampler.pushed(
                ResamplerFrame { frame: self.sample_at(self.index.value), index: self.index.value },
            ),
            ..self
        }
    }

    /// The state after one source step: push the frame under the cursor (or
    /// silence while paused), then move the cursor one frame in the
    /// direction of play, stopping at index 0.
    pub open spec fn stepped(self) -> SoundView {
        if self.paused {
            SoundView {
                resampler: self.resampler.pushed(
                    ResamplerFrame { frame: Frame::silent(), index: self.index.value },
                ),
                ..self
            }
        } else {
            let s = self.with_current_pushed();
            let i = self.index.value;
            let next: usize = if self.backwards() {
                if i == 0 {
                    0
                } else {
                    (i - 1) as usize
                }
            } else {
                clamp(i + 1, 0, usize::MAX as int) as usize
            };
            SoundView { index: Parameter { value: next, ..s.index }, ..s }
        }
    }

    /// The state after `n` source steps.
    pub open spec fn stepped_times(self, n: nat) -> SoundView
        decreases n,
    {
        if n == 0 {
            self
        } else {
            self.stepped_times((n - 1) as nat).stepped()
        }
    }

    /// The state after seeking to `i`: the cursor starts a tween to `i`,
    /// and unless paused the frame at `i` is pushed at once.
    pub open spec fn seeked(self, i: usize) -> SoundView {
        let s = SoundView { index: Parameter { value: i, base_value: self.index.value }, ..self };
        if self.paused {
            s
        } else {
            s.with_current_pushed()
        }
    }

    /// The state after the loop check: with looping on, a cursor at or past
    /// the loop end going forwards (at or before the loop start going
    /// backwards) jumps to the other end.
    pub open spec fn wrapped(self) -> SoundView {
        let lp = self.loop_points.value;
        if !self.loop_enabled {
            self
        } else if self.backwards() {
            if self.index.value <= lp.start {
                self.seeked(lp.end)
            } else {
                self
            }
        } else if self.index.value >= lp.end {
            self.seeked(lp.start)
        } else {
            self
        }
    }
}

/// A parameter moved a fraction `t` of the way from its base to `target`.
pub open spec fn updated<T: Tweenable>(p: Parameter<T>, target: T, t: int) -> Parameter<T> {
    Parameter { value: T::blend(p.base_value, target, t), base_value: p.base_value }
}

/// A parameter whose current value has become its resting value.
pub open spec fn stopped<T: Tweenable>(p: Parameter<T>) -> Parameter<T> {
    Parameter { value: p.value, base_value: p.value }
}

impl SoundView {
    /// The same state with no commands.
    pub open spec fn without_commands(self) -> SoundView {
        SoundView { commands: Seq::empty(), ..self }
    }

    /// The state after applying `change` at eased progress `t`.
    pub open spec fn changed(self, change: Change, t: int) -> SoundView {
        match change {
            Change::Volume(v) => SoundView { volume: updated(self.volume, v, t), ..self },
            Change::PlaybackRate(r) => SoundView {
                playback_rate: updated(self.playback_rate, r, t),
                ..self
            },
            Change::Pause(p) => if t >= UNITY / 2 {
                SoundView { paused: p, ..self }
            } else {
                self
            },
            Change::Index(i) => SoundView { index: updated(self.index, i, t), ..self },
            Change::Position(p) => SoundView {
                index: updated(self.index, index_at(p, self.sample_rate), t),
                ..self
            },
            Change::LoopSeconds(a, b) => SoundView {
                loop_points: updated(
                    self.loop_points,
                    LoopPoints::from_times(a, b, self.sample_rate),
                    t,
                ),
                ..self
            },
            Change::LoopIndex(a, b) => SoundView {
                loop_points: updated(self.loop_points, LoopPoints { start: a, end: b }, t),
                ..self
            },
        }
    }

    /// The state after the parameter that `change` targets stops tweening.
    pub open spec fn settled(self, change: Change) -> SoundView {
        match change {
            Change::Volume(_) => SoundView { volume: stopped(self.volume), ..self },
            Change::PlaybackRate(_) => SoundView {
                playback_rate: stopped(self.playback_rate),
                ..self
            },
            Change::Pause(_) => self,
            Change::Index(_) | Change::Position(_) => SoundView {
                index: stopped(self.index),
                ..self
            },
            Change::LoopSeconds(_, _) | Change::LoopIndex(_, _) => SoundView {
                loop_points: stopped(self.loop_points),
                ..self
            },
        }
    }

    /// One command over one tick of `dt` flicks: applied at its eased
    /// progress if it has started; then its clock advances; if that ends it,
    /// its target lands on the curve's end value and stops tweening. Returns
    /// the new state, the advanced command and whether it is still running.
    pub open spec fn command_step(self, c: Command, dt: int) -> (SoundView, Command, bool) {
        let s1 = if c.started() {
            self.changed(c.change, c.easing.value(c.progress()))
        } else {
            self
        };
        let c1 = c.advanced(dt);
        if c1.running() {
            (s1, c1, true)
        } else {
            (s1.changed(c.change, c.easing.value(UNITY as int)).settled(c.change), c1, false)
        }
    }

    /// All of `cmds` over one tick, in order; returns the state and the
    /// commands still running.
    pub open spec fn run_commands(self, cmds: Seq<Command>, dt: int) -> (SoundView, Seq<Command>)
        decreases cmds.len(),
    {
        if cmds.len() == 0 {
            (self, Seq::empty())
        } else {
            let (s1, kept) = self.run_commands(cmds.drop_last(), dt);
            let (s2, c, keep) = s1.command_step(cmds.last(), dt);
            (s2, if keep { kept.push(c) } else { kept })
        }
    }

    /// The state after the live commands run for `dt` flicks.
    pub open spec fn commands_run(self, dt: int) -> SoundView {
        let (s, kept) = self.without_commands().run_commands(self.commands, dt);
        SoundView { commands: kept, ..s }
    }

    /// How far the fractional position moves in one output tick, in fixed
    /// point: the ratio of the sample rates times the speed factor's size.
    pub open spec fn increment(self, output_rate: u32) -> int {
        let f = self.playback_rate.value.factor();
        let magnitude = if f < 0 { -f } else { f };
        (self.sample_rate * magnitude) / (output_rate as int)
    }

    /// The state after the cursor advances by one output tick.
    pub open spec fn advanced(self, output_rate: u32) -> SoundView {
        let total = self.fractional_position + self.increment(output_rate);
        SoundView {
            fractional_position: total % (UNITY as int),
            ..self.stepped_times((total / (UNITY as int)) as nat)
        }
    }

    /// One output tick at `output_rate`: the new state and the frame played.
    pub open spec fn tick(self, output_rate: u32) -> (SoundView, Frame) {
        if self.finished() {
            (self, Frame::silent())
        } else {
            let s1 = self.wrapped();
            let s2 = if s1.commands.len() == 0 {
                s1
            } else {
                s1.commands_run(tick_length(output_rate))
            };
            (s2.advanced(output_rate), s2.resampler.value_at(s2.fractional_position))
        }
    }
}

impl SoundView {
    /// The fractional position is within `[0, UNITY)`.
    pub open spec fn wf(self) -> bool {
        0 <= self.fractional_position < UNITY
    }

    /// A fresh sound over `frames` at `sample_rate`, before its resampler is
    /// seeded: at index 0, unpaused, at normal speed and unity volume, with
    /// no commands and no loop.
    pub open spec fn initial(sample_rate: u32, frames: Seq<Frame>) -> SoundView {
        SoundView {
            sample_rate,
            frames,
            paused: false,
            index: Parameter { value: 0, base_value: 0 },
            resampler: Resampler::fresh(0),
            playback_rate: Parameter {
                value: PlaybackRate::normal(),
                base_value: PlaybackRate::normal(),
            },
            fractional_position: 0,
            volume: Parameter { value: UNITY, base_value: UNITY },
            commands: Seq::empty(),
            loop_points: Parameter { value: LoopPoints::no_loop(), base_value: LoopPoints::no_loop() },
            loop_enabled: false,
        }
    }
}

/// A fixed-point offset between two source samples, in `[0, UNITY)`.
#[derive(Clone, Copy, Debug)]
struct Fraction {
    value: i64,
}

impl Fraction {
    #[verifier::type_invariant]
    spec fn in_range(self) -> bool {
        0 <= self.value < UNITY
    }
}

/// One playing instance of a clip: a shared, immutable frame buffer and the
/// mutable playback state around it.
#[derive(Clone, Debug)]
pub struct Sound {
    sample_rate: u32,
    /// The source frames, shared with every clone of this sound.
    pub frames: Arc<Vec<Frame>>,
    /// Whether playback is paused.
    pub paused: bool,
    index: Parameter<usize>,
    resampler: Resampler,
    playback_rate: Parameter<PlaybackRate>,
    fractional_position: Fraction,
    volume: Parameter<i64>,
    commands: Vec<Command>,
    loop_points: Parameter<LoopPoints>,
    /// Whether looping is enabled.
    pub loop_enabled: bool,
}

impl View for Sound {
    type V = SoundView;

    closed spec fn view(&self) -> SoundView {
        SoundView {
            sample_rate: self.sample_rate,
            frames: self.frames@,
            paused: self.paused,
            index: self.index,
            resampler: self.resampler,
            playback_rate: self.playback_rate,
            fractional_position: self.fractional_position.value as int,
            volume: self.volume,
            commands: self.commands@,
            loop_points: self.loop_points,
            loop_enabled: self.loop_enabled,
        }
    }
}

impl Sound {
    /// A sound over `frames` at `sample_rate`. Three frames are fed to the
    /// resampler at once, so the first tick already plays the first frame.
    pub fn from_frames(sample_rate: u32, frames: Vec<Frame>) -> (r: Sound)
        ensures
            r@ == SoundView::initial(sample_rate, frames@).stepped_times(3),
            r@.wf(),
    {
        let mut sound = Sound {
            sample_rate,
            frames: Arc::new(frames),
            paused: false,
            index: Parameter::new(0),
            resampler: Resampler::new(0),
            playback_rate: Parameter::new(PlaybackRate::Factor(UNITY)),
            fractional_position: Fraction { value: 0 },
            volume: Parameter::new(UNITY),
            commands: Vec::new(),
            loop_points: Parameter::new(LoopPoints::whole()),
            loop_enabled: false,
        };
        let ghost s0 = sound@;
        assert(s0 == SoundView::initial(sample_rate, frames@));
        let mut k: usize = 0;
        while k < 3
            invariant
                k <= 3,
                sound@ == s0.stepped_times(k as nat),
                sound@.wf(),
            decreases 3 - k,
        {
            sound.update_position();
            k = k + 1;
        }
        sound
    }

    /// Every sound is well formed; this states it for callers' proofs and
    /// does nothing at run time.
    pub fn establish_wf(&self)
        ensures
            self@.wf(),
    {
        proof {
            use_type_invariant(&self.fractional_position);
        }
    }

    /// The number of source frames.
    pub fn frame_count(&self) -> (r: usize)
        ensures
            r == self@.frames.len(),
    {
        self.frames.len()
    }

    /// The source sample rate.
    pub fn sample_rate(&self) -> (r: u32)
        ensures
            r == self@.sample_rate,
    {
        self.sample_rate
    }

    /// The length of the sound in flicks, rounded down; zero for a sound
    /// without a rate.
    pub fn duration_seconds(&self) -> (r: u128)
        ensures
            r == time_of(self@.frames.len() as usize, self@.sample_rate),
    {
        time_of_exec(self.frames.len(), self.sample_rate)
    }

    /// The length of the sound in nanoseconds, rounded down; zero for a
    /// sound without a rate.
    pub fn duration(&self) -> (r: u128)
        ensures
            self@.sample_rate == 0 ==> r == 0,
            self@.sample_rate != 0 ==> r == ((self@.frames.len() as int) * 1_000_000_000) / (
            self@.sample_rate as int),
    {
        if self.sample_rate == 0 {
            0
        } else {
            let n: usize = self.frames.len();
            proof {
                assert(0 <= n * 1_000_000_000 <= 0x1_0000_0000_0000_0000 * 0x1_0000_0000)
                    by (nonlinear_arith)
                    requires
                        0 <= n <= 0x1_0000_0000_0000_0000,
                ;
            }
            (n as u128 * 1_000_000_000) / self.sample_rate as u128
        }
    }

    fn sample_at(&self, i: usize) -> (r: Frame)
        ensures
            r == self@.sample_at(i),
    {
        let frames: &Vec<Frame> = &self.frames;
        if i < frames.len() {
            frames[i].mul(self.volume.value)
        } else {
            Frame::zero()
        }
    }

    /// Pushes the frame under the cursor, scaled by the volume, to the
    /// resampler.
    pub fn push_frame_to_resampler(&mut self)
        ensures
            final(self)@ == old(self)@.with_current_pushed(),
    {
        let i = self.index.value;
        let f = self.sample_at(i);
        self.resampler.push_frame(f, i);
    }

    /// Whether the sound plays backwards.
    pub fn is_playing_backwards(&self) -> (r: bool)
        ensures
            r == self@.backwards(),
    {
        self.playback_rate.value.as_factor() < 0
    }

    /// One source step: pushes the frame under the cursor (silence while
    /// paused) and moves the cursor one frame in the direction of play.
    pub fn update_position(&mut self)
        ensures
            final(self)@ == old(self)@.stepped(),
            final(self)@.sample_rate == old(self)@.sample_rate,
            final(self)@.frames == old(self)@.frames,
    {
        if self.paused {
            self.resampler.push_frame(Frame::zero(), self.index.value);
        } else {
            let backwards = self.is_playing_backwards();
            self.push_frame_to_resampler();
            if backwards {
                if self.index.value > 0 {
                    self.index.value = self.index.value - 1;
                }
            } else if self.index.value < usize::MAX {
                self.index.value = self.index.value + 1;
            }
        }
    }

    /// Whether playback has run off the buffer.
    pub fn finished(&self) -> (r: bool)
        ensures
            r == self@.finished(),
    {
        self.index.value >= self.frames.len() || (self.index.value == 0
            && self.is_playing_backwards())
    }

    /// Seeks to source index `index`; unless paused, the frame there is
    /// pushed to the resampler at once.
    pub fn seek_to_index(&mut self, index: usize)
        ensures
            final(self)@ == old(self)@.seeked(index),
    {
        self.index.start_tween(index);
        if !self.paused {
            self.push_frame_to_resampler();
        }
    }

    /// Seeks to the last frame.
    pub fn seek_to_end(&mut self)
        ensures
            final(self)@ == old(self)@.seeked(
                (if old(self)@.frames.len() == 0 { 0 } else { old(self)@.frames.len() - 1 }) as usize,
            ),
    {
        let n = self.frames.len();
        self.seek_to_index(if n == 0 { 0 } else { n - 1 });
    }

    /// Seeks to the first frame.
    pub fn reset(&mut self)
        ensures
            final(self)@ == old(self)@.seeked(0),
    {
        self.seek_to_index(0);
    }

    /// Seeks by `flicks`, forwards or backwards.
    pub fn seek_by(&mut self, flicks: i64)
        ensures
            final(self)@ == old(self)@.seeked(
                clamp(
                    old(self)@.index.value + (flicks * old(self)@.sample_rate) / (
                    FLICKS_PER_SECOND as int),
                    0,
                    usize::MAX as int,
                ) as usize,
            ),
    {
        proof {
            crate::easing::lemma_mul_abs(
                flicks as int,
                self.sample_rate as int,
                0x8000_0000_0000_0000,
                0x1_0000_0000,
            );
        }
        let delta: i128 = crate::fixed::floor_div(
            flicks as i128 * self.sample_rate as i128,
            FLICKS_PER_SECOND as i128,
        );
        let target: usize = crate::fixed::saturate_usize(self.index.value as i128 + delta);
        self.seek_to_index(target);
    }

    /// Seeks to the time `flicks`.
    pub fn seek_to(&mut self, flicks: i64)
        ensures
            final(self)@ == old(self)@.seeked(index_at(flicks, old(self)@.sample_rate)),
    {
        let target = index_at_exec(flicks, self.sample_rate);
        self.seek_to_index(target);
    }
}

impl Sound {
    /// Starts a tween of the playback rate towards `playback_rate`; returns
    /// the previous current rate.
    pub fn set_playback_rate(&mut self, playback_rate: PlaybackRate) -> (r: PlaybackRate)
        ensures
            r == old(self)@.playback_rate.value,
            final(self)@ == (SoundView {
                playback_rate: Parameter {
                    value: playback_rate,
                    base_value: old(self)@.playback_rate.value,
                },
                ..old(self)@
            }),
    {
        let prev = self.playback_rate.value;
        self.playback_rate.start_tween(playback_rate);
        prev
    }

    /// The current playback rate, which commands may move.
    pub fn playback_rate(&self) -> (r: PlaybackRate)
        ensures
            r == self@.playback_rate.value,
    {
        self.playback_rate.value
    }

    /// The resting playback rate.
    pub fn base_playback_rate(&self) -> (r: PlaybackRate)
        ensures
            r == self@.playback_rate.base_value,
    {
        self.playback_rate.base_value
    }

    /// Starts a tween of the volume towards `volume`; returns the previous
    /// current volume. Frames already in the resampler keep their volume.
    pub fn set_volume(&mut self, volume: i64) -> (r: i64)
        ensures
            r == old(self)@.volume.value,
            final(self)@ == (SoundView {
                volume: Parameter { value: volume, base_value: old(self)@.volume.value },
                ..old(self)@
            }),
    {
        let prev = self.volume.value;
        self.volume.start_tween(volume);
        prev
    }

    /// The current volume, which commands may move.
    pub fn volume(&self) -> (r: i64)
        ensures
            r == self@.volume.value,
    {
        self.volume.value
    }

    /// The resting volume.
    pub fn base_volume(&self) -> (r: i64)
        ensures
            r == self@.volume.base_value,
    {
        self.volume.base_value
    }

    /// Flips the direction of play.
    pub fn reverse(&mut self)
        ensures
            final(self)@ == (SoundView {
                playback_rate: Parameter {
                    value: old(self)@.playback_rate.value.reversed(),
                    base_value: old(self)@.playback_rate.value,
                },
                ..old(self)@
            }),
    {
        let r = self.playback_rate.value.reverse();
        self.playback_rate.start_tween(r);
    }

    /// Adds a command; it runs from the next tick on.
    pub fn add_command(&mut self, command: Command)
        ensures
            final(self)@ == (SoundView { commands: old(self)@.commands.push(command), ..old(self)@ }),
    {
        self.commands.push(command);
    }

    /// Starts a tween of the loop region towards `start..end` (indices).
    pub fn set_loop_index(&mut self, start: usize, end: usize)
        ensures
            final(self)@ == (SoundView {
                loop_points: Parameter {
                    value: LoopPoints { start, end },
                    base_value: old(self)@.loop_points.value,
                },
                ..old(self)@
            }),
    {
        self.loop_points.start_tween(LoopPoints::from_range(start, end));
    }

    /// Turns looping on or off; returns the previous setting.
    pub fn set_loop_enabled(&mut self, enabled: bool) -> (r: bool)
        ensures
            r == old(self)@.loop_enabled,
            final(self)@ == (SoundView { loop_enabled: enabled, ..old(self)@ }),
    {
        let prev = self.loop_enabled;
        self.loop_enabled = enabled;
        prev
    }

    /// Whether looping is on.
    pub fn loop_enabled(&self) -> (r: bool)
        ensures
            r == self@.loop_enabled,
    {
        self.loop_enabled
    }

    /// Sets the loop region to the times `start..end`, in flicks, with no
    /// tween.
    pub fn set_loop(&mut self, start: i64, end: i64)
        ensures
            final(self)@ == (SoundView {
                loop_points: Parameter {
                    value: LoopPoints::from_times(start, end, old(self)@.sample_rate),
                    base_value: LoopPoints::from_times(start, end, old(self)@.sample_rate),
                },
                ..old(self)@
            }),
    {
        self.loop_points = Parameter::new(LoopPoints::from_range_secs(start, end, self.sample_rate));
    }

    /// The loop start, as a source index.
    pub fn loop_start(&self) -> (r: usize)
        ensures
            r == self@.loop_points.value.start,
    {
        self.loop_points.value.start
    }

    /// The loop end, as a source index.
    pub fn loop_end(&self) -> (r: usize)
        ensures
            r == self@.loop_points.value.end,
    {
        self.loop_points.value.end
    }

    /// The loop start, in flicks.
    pub fn loop_start_secs(&self) -> (r: u128)
        ensures
            r == time_of(self@.loop_points.value.start, self@.sample_rate),
    {
        time_of_exec(self.loop_points.value.start, self.sample_rate)
    }

    /// The loop end, in flicks.
    pub fn loop_end_secs(&self) -> (r: u128)
        ensures
            r == time_of(self@.loop_points.value.end, self@.sample_rate),
    {
        time_of_exec(self.loop_points.value.end, self.sample_rate)
    }

    /// The current source index, which commands may move.
    pub fn index(&self) -> (r: usize)
        ensures
            r == self@.index.value,
    {
        self.index.value
    }

    /// The resting source index.
    pub fn base_index(&self) -> (r: usize)
        ensures
            r == self@.index.base_value,
    {
        self.index.base_value
    }

    /// Whether the resampler window holds only silence.
    pub fn outputting_silence(&self) -> (r: bool)
        ensures
            r == self@.resampler.silent(),
    {
        self.resampler.outputting_silence()
    }

    /// The live commands.
    pub fn commands(&self) -> (r: &Vec<Command>)
        ensures
            r@ == self@.commands,
    {
        &self.commands
    }

    fn apply_change(&mut self, change: Change, t: i64)
        requires
            blend_factor(t as int),
        ensures
            final(self)@ == old(self)@.changed(change, t as int),
    {
        match change {
            Change::Volume(v) => self.volume.update(v, t),
            Change::PlaybackRate(r) => self.playback_rate.update(r, t),
            Change::Pause(p) => {
                if t >= UNITY / 2 {
                    self.paused = p;
                }
            },
            Change::Index(i) => self.index.update(i, t),
            Change::Position(p) => {
                let i = index_at_exec(p, self.sample_rate);
                self.index.update(i, t);
            },
            Change::LoopSeconds(a, b) => {
                let lp = LoopPoints::from_range_secs(a, b, self.sample_rate);
                self.loop_points.update(lp, t);
            },
            Change::LoopIndex(a, b) => {
                self.loop_points.update(LoopPoints::from_range(a, b), t);
            },
        }
    }

    fn settle_change(&mut self, change: Change)
        ensures
            final(self)@ == old(self)@.settled(change),
    {
        match change {
            Change::Volume(_) => self.volume.stop(),
            Change::PlaybackRate(_) => self.playback_rate.stop(),
            Change::Pause(_) => {},
            Change::Index(_) | Change::Position(_) => self.index.stop(),
            Change::LoopSeconds(_, _) | Change::LoopIndex(_, _) => self.loop_points.stop(),
        }
    }

    fn run_command(&mut self, c: Command, dt: i64) -> (r: (Command, bool))
        ensures
            (final(self)@, r.0, r.1) == old(self)@.command_step(c, dt as int),
            final(self)@.sample_rate == old(self)@.sample_rate,
            final(self)@.frames == old(self)@.frames,
            final(self)@.fractional_position == old(self)@.fractional_position,
    {
        if c.start_after <= 0 {
            let t = c.easing.apply(c.progress_exec());
            self.apply_change(c.change, t);
        }
        let mut c1 = c;
        c1.advance(dt);
        if c1.is_running() {
            (c1, true)
        } else {
            let t = c.easing.apply(UNITY);
            self.apply_change(c.change, t);
            self.settle_change(c.change);
            (c1, false)
        }
    }

    fn update_commands(&mut self, dt: i64)
        ensures
            final(self)@ == old(self)@.commands_run(dt as int),
            final(self)@.fractional_position == old(self)@.fractional_position,
            final(self)@.sample_rate == old(self)@.sample_rate,
            final(self)@.frames == old(self)@.frames,
    {
        let ghost cmds = old(self)@.commands;
        let ghost s0 = old(self)@.without_commands();
        let mut i: usize = 0;
        let ghost mut j: int = 0;
        while i < self.commands.len()
            invariant
                0 <= j <= cmds.len(),
                (self@.without_commands(), self@.commands.take(i as int)) == s0.run_commands(
                    cmds.take(j),
                    dt as int,
                ),
                i <= self@.commands.len(),
                self@.commands == self@.commands.take(i as int) + cmds.skip(j),
                self@.fractional_position == old(self)@.fractional_position,
                self@.sample_rate == old(self)@.sample_rate,
                self@.frames == old(self)@.frames,
            decreases self@.commands.len() - i,
        {
            let c = self.commands[i];
            let ghost before = self@;
            let ghost kept = self@.commands.take(i as int);
            proof {
                assert(self@.commands[i as int] == cmds[j]);
                assert(cmds.take(j + 1).drop_last() =~= cmds.take(j));
                assert(cmds.take(j + 1).last() == c);
            }
            let (c1, keep) = self.run_command(c, dt);
            proof {
                lemma_command_step_keeps_list(before, c, dt as int);
            }
            if keep {
                self.commands.set(i, c1);
                proof {
                    assert(self@.commands.take(i + 1) =~= kept.push(c1));
                    assert(self@.commands =~= self@.commands.take(i + 1) + cmds.skip(j + 1));
                }
                i = i + 1;
            } else {
                self.commands.remove(i);
                proof {
                    assert(self@.commands.take(i as int) =~= kept);
                    assert(self@.commands =~= kept + cmds.skip(j + 1));
                }
            }
            proof {
                j = j + 1;
            }
        }
        proof {
            assert(cmds.take(j) =~= cmds);
            assert(self@.commands.take(i as int) =~= self@.commands);
        }
    }

    fn update_loop(&mut self)
        ensures
            final(self)@ == old(self)@.wrapped(),
            final(self)@.sample_rate == old(self)@.sample_rate,
            final(self)@.frames == old(self)@.frames,
            final(self)@.fractional_position == old(self)@.fractional_position,
    {
        if self.loop_enabled {
            let start = self.loop_points.value.start;
            let end = self.loop_points.value.end;
            if self.is_playing_backwards() {
                if self.index.value <= start {
                    self.seek_to_index(end);
                }
            } else if self.index.value >= end {
                self.seek_to_index(start);
            }
        }
    }

    fn advance(&mut self, output_rate: u32)
        requires
            output_rate > 0,
        ensures
            final(self)@ == old(self)@.advanced(output_rate),
            final(self)@.sample_rate == old(self)@.sample_rate,
            final(self)@.frames == old(self)@.frames,
            final(self)@.wf(),
    {
        proof {
            use_type_invariant(&self.fractional_position);
        }
        let f: i64 = self.playback_rate.value.as_factor();
        let magnitude: i128 = if f < 0 {
            -(f as i128)
        } else {
            f as i128
        };
        proof {
            crate::easing::lemma_mul_abs(
                self.sample_rate as int,
                magnitude as int,
                0x1_0000_0000,
                0x8000_0000_0000_0000,
            );
        }
        let step: i128 = crate::fixed::floor_div(
            self.sample_rate as i128 * magnitude,
            output_rate as i128,
        );
        let total: i128 = self.fractional_position.value as i128 + step;
        let u: i128 = UNITY as i128;
        let k: i128 = crate::fixed::floor_div(total, u);
        let ghost s0 = self@;
        let mut j: i128 = 0;
        while j < k
            invariant
                0 <= j <= k,
                self@ == s0.stepped_times(j as nat),
                self@.sample_rate == s0.sample_rate,
                self@.frames == s0.frames,
            decreases k - j,
        {
            self.update_position();
            j = j + 1;
        }
        proof {
            vstd::arithmetic::div_mod::lemma_fundamental_div_mod(total as int, u as int);
        }
        self.fractional_position = Fraction { value: (total - k * u) as i64 };
    }

    /// Renders one output tick at `output_rate`. A finished sound returns
    /// silence and stays as it is.
    pub fn next_frame(&mut self, output_rate: u32) -> (r: Frame)
        requires
            output_rate > 0,
        ensures
            (final(self)@, r) == old(self)@.tick(output_rate),
            final(self)@.sample_rate == old(self)@.sample_rate,
            final(self)@.frames == old(self)@.frames,
            final(self)@.wf(),
    {
        proof {
            use_type_invariant(&self.fractional_position);
        }
        if self.finished() {
            return Frame::zero();
        }
        self.update_loop();
        if self.commands.len() > 0 {
            self.update_commands(FLICKS_PER_SECOND / output_rate as i64);
        }
        proof {
            use_type_invariant(&self.fractional_position);
        }
        let frame = self.resampler.get(self.fractional_position.value);
        self.advance(output_rate);
        frame
    }
}

/// A finished sound stays finished: a tick leaves it as it is and plays
/// silence.
pub proof fn lemma_finished_is_terminal(s: SoundView, output_rate: u32)
    requires
        s.finished(),
    ensures
        s.tick(output_rate) == (s, Frame::silent()),
        s.tick(output_rate).0.finished(),
{
}

/// After a seek to `i` while playing, the cursor is at `i` and the frame at
/// `i` is already the newest one in the resampler window, tagged with `i`.
pub proof fn lemma_seek_is_immediate(s: SoundView, i: usize)
    requires
        !s.paused,
    ensures
        s.seeked(i).index.value == i,
        s.seeked(i).resampler.window()[3] == (ResamplerFrame { frame: s.sample_at(i), index: i }),
{
    let s1 = SoundView { index: Parameter { value: i, base_value: s.index.value }, ..s };
    lemma_pushed_window(s1.resampler, ResamplerFrame { frame: s1.sample_at(i), index: i });
}

/// With looping on, a cursor that reaches the loop end going forwards is at
/// the loop start after the loop check of the same tick; one that reaches
/// the loop start going backwards is at the loop end.
pub proof fn lemma_loop_wraps(s: SoundView)
    requires
        s.loop_enabled,
    ensures
        !s.backwards() && s.index.value >= s.loop_points.value.end ==> s.wrapped().index.value
            == s.loop_points.value.start,
        s.backwards() && s.index.value <= s.loop_points.value.start ==> s.wrapped().index.value
            == s.loop_points.value.end,
{
}

/// A volume command that completes during a tick leaves the volume exactly
/// at its target, as the resting value too, whatever the curve did before,
/// provided the curve ends at 1.
pub proof fn lemma_volume_command_lands(s: SoundView, c: Command, dt: int, v: i64)
    requires
        c.change == Change::Volume(v),
        c.easing != crate::easing::Easing::Reverse,
        !c.advanced(dt).running(),
    ensures
        s.command_step(c, dt).0.volume.value == v,
        s.command_step(c, dt).0.volume.base_value == v,
        !s.command_step(c, dt).2,
{
    crate::easing::lemma_curve_ends(c.easing);
    let s1 = if c.started() {
        s.changed(c.change, c.easing.value(c.progress()))
    } else {
        s
    };
    crate::fixed::lemma_lerp_ends(s1.volume.base_value as int, v as int);
}

/// Two running commands on the playback rate in one tick: the value left is
/// the one the later command computes from the resting rate; nothing of the
/// earlier command's value is blended in.
pub proof fn lemma_later_command_wins(
    s: SoundView,
    c1: Command,
    c2: Command,
    r1: PlaybackRate,
    r2: PlaybackRate,
    dt: int,
)
    requires
        c1.change == Change::PlaybackRate(r1),
        c2.change == Change::PlaybackRate(r2),
        c2.started(),
        c1.advanced(dt).running(),
        c2.advanced(dt).running(),
    ensures
        s.run_commands(seq![c1, c2], dt).0.playback_rate.value == <PlaybackRate as Tweenable>::blend(
            s.playback_rate.base_value,
            r2,
            c2.easing.value(c2.progress()),
        ),
        s.run_commands(seq![c1, c2], dt).1 == seq![c1.advanced(dt), c2.advanced(dt)],
{
    let cs = seq![c1, c2];
    let e = Seq::<Command>::empty();
    assert(cs.drop_last() =~= seq![c1]);
    assert(seq![c1].drop_last() =~= e);
    assert(s.run_commands(e, dt) == (s, e));
    let st1 = s.command_step(c1, dt);
    assert(s.run_commands(seq![c1], dt) == (st1.0, e.push(st1.1)));
    assert(st1.0.playback_rate.base_value == s.playback_rate.base_value);
    let st2 = st1.0.command_step(c2, dt);
    assert(s.run_commands(cs, dt) == (st2.0, e.push(st1.1).push(st2.1)));
    assert(Seq::<Command>::empty().push(c1.advanced(dt)).push(c2.advanced(dt)) =~= seq![
        c1.advanced(dt),
        c2.advanced(dt),
    ]);
}

/// The state after `n` output ticks at `output_rate`.
pub open spec fn run_ticks(s: SoundView, output_rate: u32, n: nat) -> SoundView
    decreases n,
{
    if n == 0 {
        s
    } else {
        run_ticks(s, output_rate, (n - 1) as nat).tick(output_rate).0
    }
}

/// Plain forward playback: playing forwards, unpaused, not looping, with no
/// commands, and fast enough that every tick moves at least one frame.
pub open spec fn plain_forward(s: SoundView, output_rate: u32) -> bool {
    &&& s.wf()
    &&& s.frames.len() <= usize::MAX
    &&& !s.paused
    &&& !s.loop_enabled
    &&& s.commands.len() == 0
    &&& s.playback_rate.value.factor() >= 0
    &&& s.increment(output_rate) >= UNITY
}

proof fn lemma_steps_forward(s: SoundView, n: nat)
    requires
        !s.paused,
        !s.backwards(),
    ensures
        s.stepped_times(n).index.value == clamp(s.index.value + n, 0, usize::MAX as int),
        s.stepped_times(n).paused == s.paused,
        s.stepped_times(n).playback_rate == s.playback_rate,
        s.stepped_times(n).loop_enabled == s.loop_enabled,
        s.stepped_times(n).commands == s.commands,
        s.stepped_times(n).frames == s.frames,
        s.stepped_times(n).sample_rate == s.sample_rate,
        s.stepped_times(n).fractional_position == s.fractional_position,
    decreases n,
{
    if n > 0 {
        lemma_steps_forward(s, (n - 1) as nat);
    }
}

proof fn lemma_tick_moves_forward(s: SoundView, output_rate: u32)
    requires
        plain_forward(s, output_rate),
        !s.finished(),
    ensures
        plain_forward(s.tick(output_rate).0, output_rate),
        s.tick(output_rate).0.index.value >= s.index.value + 1 || s.tick(output_rate).0.index.value
            == usize::MAX,
        s.tick(output_rate).0.frames == s.frames,
{
    let total = s.fractional_position + s.increment(output_rate);
    let k = total / (UNITY as int);
    crate::fixed::lemma_div_bounds(total, UNITY as int, 1, total);
    vstd::arithmetic::div_mod::lemma_fundamental_div_mod(total, UNITY as int);
    lemma_steps_forward(s, k as nat);
    let t = s.tick(output_rate).0;
    assert(t == SoundView {
        fractional_position: total % (UNITY as int),
        ..s.stepped_times(k as nat)
    });
    assert(t.increment(output_rate) == s.increment(output_rate));
}

/// Plain forward playback finishes: after as many ticks as the buffer has
/// frames, the sound is finished.
pub proof fn lemma_playback_finishes(s: SoundView, output_rate: u32)
    requires
        plain_forward(s, output_rate),
    ensures
        run_ticks(s, output_rate, s.frames.len()).finished(),
{
    lemma_ticks_progress(s, output_rate, s.frames.len());
}

proof fn lemma_ticks_progress(s: SoundView, output_rate: u32, n: nat)
    requires
        plain_forward(s, output_rate),
    ensures
        run_ticks(s, output_rate, n).finished() || (plain_forward(
            run_ticks(s, output_rate, n),
            output_rate,
        ) && run_ticks(s, output_rate, n).index.value >= s.index.value + n
            && run_ticks(s, output_rate, n).frames == s.frames),
    decreases n,
{
    if n > 0 {
        lemma_ticks_progress(s, output_rate, (n - 1) as nat);
        let prev = run_ticks(s, output_rate, (n - 1) as nat);
        if prev.finished() {
            lemma_finished_is_terminal(prev, output_rate);
        } else {
            lemma_tick_moves_forward(prev, output_rate);
        }
    }
}

proof fn lemma_changed_keeps_list(s: SoundView, change: Change, t: int)
    ensures
        s.changed(change, t).without_commands() == s.without_commands().changed(change, t),
        s.changed(change, t).commands == s.commands,
{
    match change {
        Change::Volume(_) => {},
        Change::PlaybackRate(_) => {},
        Change::Pause(_) => {},
        Change::Index(_) => {},
        Change::Position(_) => {},
        Change::LoopSeconds(_, _) => {},
        Change::LoopIndex(_, _) => {},
    }
}

proof fn lemma_settled_keeps_list(s: SoundView, change: Change)
    ensures
        s.settled(change).without_commands() == s.without_commands().settled(change),
        s.settled(change).commands == s.commands,
{
    match change {
        Change::Volume(_) => {},
        Change::PlaybackRate(_) => {},
        Change::Pause(_) => {},
        Change::Index(_) => {},
        Change::Position(_) => {},
        Change::LoopSeconds(_, _) => {},
        Change::LoopIndex(_, _) => {},
    }
}

/// A command step leaves the command list of the state alone, whatever it
/// holds.
proof fn lemma_command_step_keeps_list(s: SoundView, c: Command, dt: int)
    ensures
        s.command_step(c, dt).0.without_commands() == s.without_commands().command_step(c, dt).0,
        s.command_step(c, dt).0.commands == s.commands,
        s.command_step(c, dt).1 == s.without_commands().command_step(c, dt).1,
        s.command_step(c, dt).2 == s.without_commands().command_step(c, dt).2,
{
    let e = s.without_commands();
    let t = c.easing.value(c.progress());
    let s1 = if c.started() {
        s.changed(c.change, t)
    } else {
        s
    };
    let e1 = if c.started() {
        e.changed(c.change, t)
    } else {
        e
    };
    lemma_changed_keeps_list(s, c.change, t);
    assert(s1.without_commands() == e1);
    assert(s1.commands == s.commands);
    let end = c.easing.value(UNITY as int);
    lemma_changed_keeps_list(s1, c.change, end);
    lemma_settled_keeps_list(s1.changed(c.change, end), c.change);
    lemma_changed_keeps_list(e1, c.change, end);
    assert(e1.changed(c.change, end).without_commands() == e1.changed(c.change, end));
    assert(e1.changed(c.change, end).settled(c.change).without_commands() == e1.changed(
        c.change,
        end,
    ).settled(c.change)) by {
        lemma_settled_keeps_list(e1.changed(c.change, end), c.change);
    }
}

} // verus!
