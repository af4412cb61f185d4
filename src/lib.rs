//! A real-time audio mixing engine.
//!
//! Clips are played by a [`Mixer`]: each playing [`Sound`] is resampled to
//! the output rate by 4-point Hermite interpolation, its volume, playback
//! rate, position and loop region are animated by [`Command`]s along
//! [`Easing`] curves, and the mixer sums the sounds into one stream that an
//! output device pulls one [`Frame`] at a time.
//!
//! All arithmetic is in integers. Samples are `i32`; gains, fractions,
//! easing values and speed factors are fixed point with [`UNITY`] standing
//! for 1; times are counted in flicks, [`FLICKS_PER_SECOND`] to the second.
pub mod channels;
pub mod command;
pub mod curve;
pub mod easing;
pub mod fixed;
pub mod frame;
pub mod handle;
pub mod looping;
pub mod mixer;
pub mod rate;
pub mod renderer;
pub mod resampler;
pub mod sound;
pub mod time;
pub mod tween;

pub use channels::{frames_from_channels, DecodeError};
pub use command::{Change, Command};
pub use easing::Easing;
pub use fixed::UNITY;
pub use frame::Frame;
pub use handle::SoundHandle;
pub use looping::LoopPoints;
pub use mixer::{Mixer, RecordMixer};
pub use rate::PlaybackRate;
pub use renderer::{DefaultRenderer, RendererHandle};
pub use resampler::{interpolate_frame, Resampler, ResamplerFrame};
pub use sound::{Sound, SoundView};
pub use time::FLICKS_PER_SECOND;
pub use tween::{Parameter, Tweenable};
