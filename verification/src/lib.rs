//! A polyphonic sound-effect engine: short signals are rendered once into a
//! wavetable, and a bounded pool of playback voices mixes those that play into
//! the output, whenever the audio backend asks for more.
//!
//! The engine is written for any type of sample that can be added, subtracted
//! and multiplied. It never looks into a sample: what goes into a frame of the
//! output, and in which order, is decided by the counting of frames and slots
//! alone, and that is what the contracts pin down.

pub mod voice;
pub mod slots;
pub mod effect;
pub mod signal;
pub mod envelope;
pub mod waveform;
pub mod render;
pub mod delay;
pub mod pool;
pub mod mix;
pub mod multiplexer;
pub mod builder;
pub mod playback;
pub mod math;
