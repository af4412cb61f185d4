use std::sync::Arc;

use vstd::prelude::*;
use vstd::rwlock::{RwLock, RwLockPredicate};

use crate::command::Command;
use crate::frame::Frame;
use crate::rate::PlaybackRate;
use crate::sound::{Sound, SoundView};
use crate::time::time_of;

verus! {

/// What a locked sound always satisfies: it is well formed, and its rate and
/// buffer length are the ones it was created with.
pub struct SoundInv {
    /// The sound's sample rate.
    pub sample_rate: u32,
    /// The length of the sound's buffer.
    pub length: usize,
}

impl RwLockPredicate<Sound> for SoundInv {
    open spec fn inv(self, s: Sound) -> bool {
        &&& s@.wf()
        &&& s@.sample_rate == self.sample_rate
        &&& s@.frames.len() == self.length
    }
}

/// A shared, lock-guarded reference to one playing sound. Clones refer to the
/// same sound; each method holds the lock for its own duration only.
#[derive(Clone)]
pub struct SoundHandle(Arc<RwLock<Sound, SoundInv>>);

impl SoundHandle {
    /// The sample rate of the sound.
    pub closed spec fn rate(&self) -> u32 {
        self.0.pred().sample_rate
    }

    /// The length of the sound's buffer.
    pub closed spec fn length(&self) -> usize {
        self.0.pred().length
    }

    /// A handle to a new shared sound.
    pub fn new(sound: Sound) -> (r: SoundHandle)
        ensures
            r.rate() == sound@.sample_rate,
            r.length() == sound@.frames.len(),
    {
        let n: usize = sound.frame_count();
        sound.establish_wf();
        let ghost inv = SoundInv { sample_rate: sound@.sample_rate, length: n };
        SoundHandle(Arc::new(RwLock::new(sound, Ghost(inv))))
    }

    /// The sample rate of the sound.
    pub fn sample_rate(&self) -> (r: u32)
        ensures
            r == self.rate(),
    {
        let (sound, handle) = self.0.acquire_write();
        let r = sound.sample_rate();
        handle.release_write(sound);
        r
    }

    /// The length of the sound in nanoseconds.
    pub fn duration(&self) -> (r: u128)
        ensures
            self.rate() == 0 ==> r == 0,
            self.rate() != 0 ==> r == ((self.length() as int) * 1_000_000_000) / (
            self.rate() as int),
    {
        let (sound, handle) = self.0.acquire_write();
        let r = sound.duration();
        handle.release_write(sound);
        r
    }

    /// The length of the sound in flicks.
    pub fn duration_seconds(&self) -> (r: u128)
        ensures
            r == time_of(self.length(), self.rate()),
    {
        let (sound, handle) = self.0.acquire_write();
        let r = sound.duration_seconds();
        handle.release_write(sound);
        r
    }

    /// Renders one tick of the sound; returns the frame, whether the sound
    /// is finished after it, and the state it was rendered from.
    pub(crate) fn render(&self, output_rate: u32) -> (r: (Frame, bool, Ghost<SoundView>))
        requires
            output_rate > 0,
        ensures
            r.2@.wf(),
            r.0 == r.2@.tick(output_rate).1,
            r.1 == r.2@.tick(output_rate).0.finished(),
    {
        let (mut sound, handle) = self.0.acquire_write();
        let ghost before = sound@;
        let frame = sound.next_frame(output_rate);
        let done = sound.finished();
        handle.release_write(sound);
        (frame, done, Ghost(before))
    }

    /// Renders one tick of the sound at `output_rate`: the frame played by
    /// one tick of whatever state the sound is in when the lock is taken.
    pub fn next_frame(&self, output_rate: u32) -> (r: Frame)
        requires
            output_rate > 0,
        ensures
            exists|s: SoundView| s.wf() && s.sample_rate == self.rate() && r == s.tick(output_rate).1,
    {
        let (mut sound, handle) = self.0.acquire_write();
        let ghost before = sound@;
        let frame = sound.next_frame(output_rate);
        assert(before.wf() && before.sample_rate == self.rate() && frame == before.tick(output_rate).1);
        handle.release_write(sound);
        frame
    }

    /// Pushes the frame under the cursor to the resampler.
    pub fn push_frame_to_resampler(&self) {
        let (mut sound, handle) = self.0.acquire_write();
        sound.push_frame_to_resampler();
        handle.release_write(sound);
    }

    /// Whether the sound plays backwards.
    pub fn is_playing_backwards(&self) -> bool {
        let (mut sound, handle) = self.0.acquire_write();
        let r = sound.is_playing_backwards();
        handle.release_write(sound);
        r
    }

    /// One source step: pushes the frame under the cursor and moves the cursor.
    pub fn update_position(&self) {
        let (mut sound, handle) = self.0.acquire_write();
        sound.update_position();
        handle.release_write(sound);
    }

    /// Whether playback has run off the buffer.
    pub fn finished(&self) -> bool {
        let (mut sound, handle) = self.0.acquire_write();
        let r = sound.finished();
        handle.release_write(sound);
        r
    }

    /// Seeks to the first frame.
    pub fn reset(&self) {
        let (mut sound, handle) = self.0.acquire_write();
        sound.reset();
        handle.release_write(sound);
    }

    /// Starts a tween of the playback rate; returns the previous current rate.
    pub fn set_playback_rate(&self, playback_rate: PlaybackRate) -> PlaybackRate {
        let (mut sound, handle) = self.0.acquire_write();
        let r = sound.set_playback_rate(playback_rate);
        handle.release_write(sound);
        r
    }

    /// The current playback rate.
    pub fn playback_rate(&self) -> PlaybackRate {
        let (mut sound, handle) = self.0.acquire_write();
        let r = sound.playback_rate();
        handle.release_write(sound);
        r
    }

    /// The resting playback rate.
    pub fn base_playback_rate(&self) -> PlaybackRate {
        let (mut sound, handle) = self.0.acquire_write();
        let r = sound.base_playback_rate();
        handle.release_write(sound);
        r
    }

    /// Starts a tween of the volume; returns the previous current volume.
    pub fn set_volume(&self, volume: i64) -> i64 {
        let (mut sound, handle) = self.0.acquire_write();
        let r = sound.set_volume(volume);
        handle.release_write(sound);
        r
    }

    /// The current volume.
    pub fn volume(&self) -> i64 {
        let (mut sound, handle) = self.0.acquire_write();
        let r = sound.volume();
        handle.release_write(sound);
        r
    }

    /// The resting volume.
    pub fn base_volume(&self) -> i64 {
        let (mut sound, handle) = self.0.acquire_write();
        let r = sound.base_volume();
        handle.release_write(sound);
        r
    }

    /// Seeks to a source index.
    pub fn seek_to_index(&self, index: usize) {
        let (mut sound, handle) = self.0.acquire_write();
        sound.seek_to_index(index);
        handle.release_write(sound);
    }

    /// Seeks to the last frame.
    pub fn seek_to_end(&self) {
        let (mut sound, handle) = self.0.acquire_write();
        sound.seek_to_end();
        handle.release_write(sound);
    }

    /// Seeks by a time in flicks, forwards or backwards.
    pub fn seek_by(&self, flicks: i64) {
        let (mut sound, handle) = self.0.acquire_write();
        sound.seek_by(flicks);
        handle.release_write(sound);
    }

    /// Seeks to a time in flicks.
    pub fn seek_to(&self, flicks: i64) {
        let (mut sound, handle) = self.0.acquire_write();
        sound.seek_to(flicks);
        handle.release_write(sound);
    }

    /// Flips the direction of play.
    pub fn reverse(&self) {
        let (mut sound, handle) = self.0.acquire_write();
        sound.reverse();
        handle.release_write(sound);
    }

    /// Adds a command.
    pub fn add_command(&self, command: Command) {
        let (mut sound, handle) = self.0.acquire_write();
        sound.add_command(command);
        handle.release_write(sound);
    }

    /// Starts a tween of the loop region towards an index range.
    pub fn set_loop_index(&self, start: usize, end: usize) {
        let (mut sound, handle) = self.0.acquire_write();
        sound.set_loop_index(start, end);
        handle.release_write(sound);
    }

    /// Turns looping on or off; returns the previous setting.
    pub fn set_loop_enabled(&self, enabled: bool) -> bool {
        let (mut sound, handle) = self.0.acquire_write();
        let r = sound.set_loop_enabled(enabled);
        handle.release_write(sound);
        r
    }

    /// Whether looping is on.
    pub fn loop_enabled(&self) -> bool {
        let (mut sound, handle) = self.0.acquire_write();
        let r = sound.loop_enabled();
        handle.release_write(sound);
        r
    }

    /// Sets the loop region to a range of times in flicks.
    pub fn set_loop(&self, start: i64, end: i64) {
        let (mut sound, handle) = self.0.acquire_write();
        sound.set_loop(start, end);
        handle.release_write(sound);
    }

    /// The loop start, as a source index.
    pub fn loop_start(&self) -> usize {
        let (mut sound, handle) = self.0.acquire_write();
        let r = sound.loop_start();
        handle.release_write(sound);
        r
    }

    /// The loop end, as a source index.
    pub fn loop_end(&self) -> usize {
        let (mut sound, handle) = self.0.acquire_write();
        let r = sound.loop_end();
        handle.release_write(sound);
        r
    }

    /// The loop start, in flicks.
    pub fn loop_start_secs(&self) -> u128 {
        let (mut sound, handle) = self.0.acquire_write();
        let r = sound.loop_start_secs();
        handle.release_write(sound);
        r
    }

    /// The loop end, in flicks.
    pub fn loop_end_secs(&self) -> u128 {
        let (mut sound, handle) = self.0.acquire_write();
        let r = sound.loop_end_secs();
        handle.release_write(sound);
        r
    }

    /// The current source index.
    pub fn index(&self) -> usize {
        let (mut sound, handle) = self.0.acquire_write();
        let r = sound.index();
        handle.release_write(sound);
        r
    }

    /// The resting source index.
    pub fn base_index(&self) -> usize {
        let (mut sound, handle) = self.0.acquire_write();
        let r = sound.base_index();
        handle.release_write(sound);
        r
    }

    /// Whether the resampler window holds only silence.
    pub fn outputting_silence(&self) -> bool {
        let (mut sound, handle) = self.0.acquire_write();
        let r = sound.outputting_silence();
        handle.release_write(sound);
        r
    }
}

} // verus!
