//! Pattern player placeholder: a beat clock that does not play yet.

use vstd::prelude::*;
use super::types::TimeSignature;

verus! {

/// Drum pattern handed to the pattern player (no content yet).
#[derive(Debug, Clone)]
pub struct DrumPattern {}

/// Individual beat within a drum pattern (no content yet).
#[derive(Debug, Clone)]
pub struct DrumPatternBeat {}

/// Pattern player for rhythm sequences; it does not play yet, so it is
/// never running, stays on beat 1 and reports 4/4.
pub struct PatternPlayer {}

impl PatternPlayer {
    /// Create a pattern player.
    pub fn new() -> (r: Self) {
        Self {}
    }

    /// Set the current pattern (accepted and ignored).
    pub fn set_pattern(&mut self, _pattern: DrumPattern) {
    }

    /// Clear the current pattern (nothing to clear).
    pub fn clear_pattern(&mut self) {
    }

    /// Start playback (no effect).
    pub fn start(&mut self) {
    }

    /// Stop playback (no effect).
    pub fn stop(&mut self) {
    }

    /// Pause playback (no effect).
    pub fn pause(&mut self) {
    }

    /// Resume playback (no effect).
    pub fn resume(&mut self) {
    }

    /// The player never runs.
    pub fn is_running(&self) -> (r: bool)
        ensures
            !r,
    {
        false
    }

    /// The player stays on beat 1.
    pub fn current_beat(&self) -> (r: u8)
        ensures
            r == 1,
    {
        1
    }

    /// The player reports 4/4.
    pub fn time_signature(&self) -> (r: TimeSignature)
        ensures
            r == (TimeSignature { beats_per_measure: 4, note_value: 4 }),
    {
        TimeSignature::new(4, 4)
    }

    /// Set the time signature (ignored).
    pub fn set_time_signature(&mut self, _time_signature: TimeSignature) {
    }
}

impl Default for PatternPlayer {
    fn default() -> (r: Self) {
        Self::new()
    }
}

} // verus!
