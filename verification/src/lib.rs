//! A software synthesizer's engine: wave sources and how they combine, the
//! oscillator, the two-pole low-pass, the ADSR envelope, the polyphonic
//! voice map, the control-value channel, the reader and scheduler of MIDI
//! songs, and the renderer that fills an audio buffer.
//!
//! Nothing here is floating point. Time is counted in whole samples, a phase
//! in `1 / 2^32` of a period, and levels, shapes and filter coefficients are
//! exact fractions, so every contract speaks about integers. A source emits
//! samples of whatever type its user picks; what turns them into the
//! numbers of an audio backend lives outside this crate.

pub mod adsr;
pub mod effects;
pub mod instrument;
pub mod midi;
pub mod mix;
pub mod oscillator;
pub mod partial_wave;
pub mod scheduler;
pub mod song;
pub mod stream;
pub mod variable;
pub mod wave;
pub mod waves;

pub use crate::oscillator::Oscillator;
pub use crate::stream::WaveStreamer;
pub use crate::variable::Variable;
