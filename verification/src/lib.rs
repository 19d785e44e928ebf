//! Polyphonica: music-practice building blocks (notes, chords, keys, chord
//! timelines, beat scheduling, metronome and beat display logic) with
//! verified contracts.

use vstd::prelude::*;

pub mod audio;
pub mod config;
pub mod melody;
pub mod patterns;
pub mod samples;
pub mod timing;
pub mod visualization;

verus! {

/// Current phase within an ADSR envelope.
#[derive(Debug, Clone, Copy, PartialEq, Eq, Structural)]
pub enum EnvelopePhase {
    Attack,
    Decay,
    Sustain,
    Release,
    Finished,
}

} // verus!
