//! Timing: time signatures, click sounds, beat scheduling, the metronome and
//! beat tracking.

pub mod clock;
pub mod metronome;
pub mod patterns;
pub mod tracker;
pub mod types;

pub use clock::DiscreteScheduler;
pub use metronome::{BeatTrigger, Metronome};
pub use patterns::PatternPlayer;
pub use tracker::BeatTracker;
pub use types::{ClickType, TimeSignature};
