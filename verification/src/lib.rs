//! Zweiton synthesizer core: the integer and text logic of a dual-oscillator synth.

pub mod engine;
pub mod env;
pub mod error;
pub mod events;
pub mod held;
pub mod keys;
pub mod note;
pub mod osc;
pub mod text;
pub mod voices;
pub mod wave;

pub use engine::{NoiseDist, NoiseMode, XorShift32};
pub use error::SynthError;
pub use osc::OscInteract;
pub use wave::Waveform;
