use vstd::prelude::*;

use crate::frame::Frame;
use crate::handle::SoundHandle;
use crate::renderer::{DefaultRenderer, RendererHandle};
use crate::sound::Sound;

verus! {

/// An audio mixer: the sounds it plays are summed by its renderer, which an
/// output device pulls one tick at a time.
#[derive(Clone)]
pub struct Mixer {
    /// The shared renderer.
    pub renderer: RendererHandle,
}

impl Mixer {
    /// A mixer with no sounds.
    pub fn new() -> (r: Mixer) {
        Mixer { renderer: RendererHandle::new(DefaultRenderer::new()) }
    }

    /// Starts playing `sound`; the returned handle controls it.
    pub fn play(&self, sound: Sound) -> (r: SoundHandle)
        ensures
            r.rate() == sound@.sample_rate,
            r.length() == sound@.frames.len(),
    {
        let handle = SoundHandle::new(sound);
        self.renderer.add_sound(handle.clone());
        handle
    }

    /// Whether every sound has finished.
    pub fn is_finished(&self) -> (r: bool) {
        !self.renderer.has_sounds()
    }

    /// Renders one tick at `sample_rate`.
    pub fn next_frame(&self, sample_rate: u32) -> (r: Frame)
        requires
            sample_rate > 0,
    {
        self.renderer.next_frame(sample_rate)
    }
}

/// A mixer that renders into buffers on request instead of to a device.
pub struct RecordMixer {
    /// The shared renderer.
    pub renderer: RendererHandle,
}

impl RecordMixer {
    /// A recording mixer with no sounds.
    pub fn new() -> (r: RecordMixer) {
        RecordMixer { renderer: RendererHandle::new(DefaultRenderer::new()) }
    }

    /// Starts playing `sound`; its frames are rendered only by
    /// `fill_buffer` and `next_frame`.
    pub fn play(&self, sound: Sound) -> (r: SoundHandle)
        ensures
            r.rate() == sound@.sample_rate,
            r.length() == sound@.frames.len(),
    {
        let handle = SoundHandle::new(sound);
        self.renderer.add_sound(handle.clone());
        handle
    }

    /// Whether every sound has finished.
    pub fn is_finished(&self) -> (r: bool) {
        !self.renderer.has_sounds()
    }

    /// Fills `frames` with consecutive ticks at `sample_rate`; no other tick
    /// is rendered in between.
    pub fn fill_buffer(&self, sample_rate: u32, frames: &mut Vec<Frame>)
        requires
            sample_rate > 0,
        ensures
            final(frames)@.len() == old(frames)@.len(),
    {
        self.renderer.fill(sample_rate, frames);
    }

    /// Renders one tick at `sample_rate`.
    pub fn next_frame(&self, sample_rate: u32) -> (r: Frame)
        requires
            sample_rate > 0,
    {
        self.renderer.next_frame(sample_rate)
    }
}

} // verus!
