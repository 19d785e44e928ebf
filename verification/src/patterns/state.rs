//! Pattern playback statistics and the order in which a pattern's beats are
//! played.

use vstd::prelude::*;
use std::time::{Duration, Instant};
use crate::timing::clock::{duration_between, instant_now, instant_since};

verus! {

/// Pattern playback statistics.
#[derive(Debug, Clone)]
pub struct PatternStats {
    /// Total beats played
    pub beats_played: u64,
    /// Pattern loops completed
    pub loops_completed: u32,
    /// Playback start time
    pub start_time: Option<Instant>,
    /// Last beat trigger time
    pub last_beat_time: Option<Instant>,
}

impl PatternStats {
    /// Fresh statistics: nothing played, no times recorded.
    pub fn new() -> (r: Self)
        ensures
            r.beats_played == 0,
            r.loops_completed == 0,
            r.start_time is None,
            r.last_beat_time is None,
    {
        Self { beats_played: 0, loops_completed: 0, start_time: None, last_beat_time: None }
    }

    /// Time from the start of playback to the last beat (or to now when no beat
    /// has been recorded); `None` before playback started.
    pub fn playback_duration(&self) -> (r: Option<Duration>)
        ensures
            r is Some <==> self.start_time is Some,
            self.start_time matches Some(s) ==> (self.last_beat_time matches Some(l) ==> r == Some(
                duration_between(l, s),
            )),
            self.start_time matches Some(s) ==> (self.last_beat_time is None ==> exists|now: Instant|
                r == Some(#[trigger] duration_between(now, s))),
    {
        match self.start_time {
            Some(start) => {
                let end = match self.last_beat_time {
                    Some(t) => t,
                    None => instant_now(),
                };
                Some(instant_since(end, start))
            },
            None => None,
        }
    }

    /// Reset the statistics.
    pub fn reset(&mut self)
        ensures
            final(self).beats_played == 0,
            final(self).loops_completed == 0,
            final(self).start_time is None,
            final(self).last_beat_time is None,
    {
        self.beats_played = 0;
        self.loops_completed = 0;
        self.start_time = None;
        self.last_beat_time = None;
    }
}

/// The beat played after beat `index` of a pattern with `beat_count` beats,
/// looping back to the first after the last; and whether that completes a
/// loop of the pattern.
pub fn next_pattern_beat(index: usize, beat_count: usize) -> (r: (usize, bool))
    requires
        index < beat_count,
    ensures
        r.0 == (index + 1) % (beat_count as int),
        r.0 < beat_count,
        r.1 == (index + 1 == beat_count),
        r.1 <==> r.0 == 0,
{
    let wraps = index == beat_count - 1;
    let next = if wraps { 0 } else { index + 1 };
    assert(next == (index + 1) % (beat_count as int)) by (nonlinear_arith)
        requires
            index < beat_count,
            next == if index + 1 == beat_count { 0 } else { index + 1 },
    ;
    (next, wraps)
}

} // verus!
