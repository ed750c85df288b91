//! A polyphonic wavetable synthesis engine in 16.16 fixed-point arithmetic.
//!
//! Key presses and releases go in, a stream of mixed samples comes out. Every
//! quantity the engine computes with is an integer: a sample or a phase is
//! counted in units of 1/65536, a frequency in hundredths of a hertz and the
//! master volume in hundredths of full scale.

pub mod fixed;
pub mod wavetable;
pub mod control;
pub mod oscillator;
pub mod voice;
pub mod volume;
pub mod synth;
