//! Discrete beat scheduling: each beat is scheduled at an absolute instant and
//! the timing base is reset on every beat, so no drift accumulates.

use vstd::prelude::*;
use std::time::{Duration, Instant};
use super::types::TimeSignature;

verus! {

/// Monotonic clock instants are carried through the scheduler as opaque values.
#[verifier::external_type_specification]
#[verifier::external_body]
pub struct ExInstant(Instant);

/// Reads the monotonic clock with `std::time::Instant::now`. The reading depends
/// on the time, so nothing is stated about it.
#[verifier::external_body]
pub(crate) fn instant_now() -> (r: Instant) {
    Instant::now()
}

/// What `Instant::duration_since` returns for two instants: the time from
/// `earlier` to `later` (zero when `earlier` is later), a function of the two
/// recorded instants alone.
pub uninterp spec fn duration_between(later: Instant, earlier: Instant) -> Duration;

/// Time elapsed from `earlier` to `later` with `Instant::duration_since`; the
/// result is `duration_between(later, earlier)`.
#[verifier::external_body]
pub(crate) fn instant_since(later: Instant, earlier: Instant) -> (r: Duration)
    ensures
        r == duration_between(later, earlier),
{
    later.duration_since(earlier)
}

/// The time since `origin` on the monotonic clock, read with
/// `Instant::elapsed`. The reading depends on the time, so nothing is stated
/// about it.
#[verifier::external_body]
pub(crate) fn instant_elapsed(origin: Instant) -> (r: Duration) {
    origin.elapsed()
}

/// What `Duration::as_nanos` returns: the whole nanoseconds in `d`, a
/// function of the duration alone.
pub uninterp spec fn duration_nanos(d: Duration) -> u128;

/// The whole nanoseconds in `d`, with `Duration::as_nanos`; the result is
/// `duration_nanos(d)`.
#[verifier::external_body]
pub(crate) fn as_nanos(d: Duration) -> (r: u128)
    ensures
        r == duration_nanos(d),
{
    d.as_nanos()
}

/// Nanoseconds elapsed on the monotonic clock since `origin`.
fn elapsed_nanos(origin: Instant) -> u128 {
    let d = instant_elapsed(origin);
    as_nanos(d)
}

/// Run state of a scheduler.
#[derive(Debug, Clone, Copy)]
enum SchedulerState {
    /// Scheduler is stopped
    Stopped,
    /// Scheduler is running normally
    Running,
    /// Scheduler is paused (maintains position); `paused_at` is the clock
    /// reading at the pause
    Paused { paused_at: u128 },
}

/// Nanoseconds in a millisecond.
pub const NANOS_PER_MILLI: u128 = 1_000_000;

/// Discrete beat scheduler shared by the beat clocks.
///
/// Times are clock readings: nanoseconds since the scheduler was created.
#[derive(Debug, Clone, Copy)]
pub struct DiscreteScheduler {
    /// The instant the clock readings count from
    origin: Instant,
    state: SchedulerState,
    time_signature: TimeSignature,
    /// Current beat within the measure (1-based)
    current_beat: u8,
    /// Clock reading at which the next beat should trigger
    next_beat_time: Option<u128>,
    is_running: bool,
}

/// The beat that follows `beat` in a measure of `beats_per_measure` beats (1-based, wrapping).
pub open spec fn next_beat_number(beat: int, beats_per_measure: int) -> int {
    if beat + 1 > beats_per_measure {
        1
    } else {
        beat + 1
    }
}

/// The clock reading `interval_ms` milliseconds after `now` (the last
/// representable reading when that is beyond the counter).
pub open spec fn reading_after(now: u128, interval_ms: u64) -> u128 {
    now.saturating_add((interval_ms * NANOS_PER_MILLI) as u128)
}

/// A scheduled beat moved later by the length of a pause from `paused_at` to
/// `now` (no shift when the readings are out of order).
pub open spec fn shifted_by_pause(next: Option<u128>, paused_at: u128, now: u128) -> Option<u128> {
    match next {
        Some(t) => Some(t.saturating_add(if now >= paused_at { (now - paused_at) as u128 } else { 0 })),
        None => None,
    }
}

impl DiscreteScheduler {
    /// Whether the scheduler is running.
    pub closed spec fn running_view(&self) -> bool {
        self.is_running
    }

    /// Whether the scheduler is paused (position kept).
    pub closed spec fn paused_view(&self) -> bool {
        self.state is Paused
    }

    /// The clock reading at which the scheduler was paused, while paused.
    pub closed spec fn paused_at_view(&self) -> Option<u128> {
        match self.state {
            SchedulerState::Paused { paused_at } => Some(paused_at),
            _ => None,
        }
    }

    /// Whether the scheduler is stopped.
    pub closed spec fn stopped_view(&self) -> bool {
        self.state is Stopped
    }

    /// Whether a next beat has been scheduled.
    pub closed spec fn pending_view(&self) -> bool {
        self.next_beat_time is Some
    }

    /// The clock reading at which the next beat is due, once scheduled.
    pub closed spec fn next_beat_view(&self) -> Option<u128> {
        self.next_beat_time
    }

    /// The current beat within the measure (1-based).
    pub closed spec fn beat_view(&self) -> u8 {
        self.current_beat
    }

    /// The time signature.
    pub closed spec fn time_signature_view(&self) -> TimeSignature {
        self.time_signature
    }

    /// Well-formedness: exactly one run state holds, "running" agrees with the
    /// state, and the beat is 1-based and within the measure (or 1).
    pub closed spec fn wf(&self) -> bool {
        &&& self.is_running <==> self.state is Running
        &&& 1 <= self.current_beat
        &&& (self.current_beat <= self.time_signature.beats_per_measure || self.current_beat == 1)
    }

    /// The run state exposed by the views is consistent.
    pub proof fn lemma_states(&self)
        requires
            self.wf(),
        ensures
            1 <= self.beat_view(),
            self.beat_view() <= self.time_signature_view().beats_per_measure || self.beat_view()
                == 1,
            self.running_view() ==> !self.paused_view() && !self.stopped_view(),
            !self.running_view() ==> (self.paused_view() != self.stopped_view()),
            self.paused_view() <==> self.paused_at_view() is Some,
            self.pending_view() <==> self.next_beat_view() is Some,
    {
    }

    /// Create a stopped scheduler at beat 1.
    pub fn new(time_signature: TimeSignature) -> (r: Self)
        ensures
            r.wf(),
            r.stopped_view(),
            !r.running_view(),
            !r.pending_view(),
            r.beat_view() == 1,
            r.time_signature_view() == time_signature,
    {
        Self {
            origin: instant_now(),
            state: SchedulerState::Stopped,
            time_signature,
            current_beat: 1,
            next_beat_time: None,
            is_running: false,
        }
    }

    /// Start from beat 1; the first beat triggers on the next check.
    pub fn start(&mut self)
        ensures
            final(self).wf(),
            final(self).running_view(),
            !final(self).pending_view(),
            final(self).beat_view() == 1,
            final(self).time_signature_view() == old(self).time_signature_view(),
    {
        self.state = SchedulerState::Running;
        self.current_beat = 1;
        self.next_beat_time = None;
        self.is_running = true;
    }

    /// Stop and reset to beat 1.
    pub fn stop(&mut self)
        ensures
            final(self).wf(),
            final(self).stopped_view(),
            !final(self).running_view(),
            !final(self).pending_view(),
            final(self).beat_view() == 1,
            final(self).time_signature_view() == old(self).time_signature_view(),
    {
        self.state = SchedulerState::Stopped;
        self.current_beat = 1;
        self.next_beat_time = None;
        self.is_running = false;
    }

    /// Pause a running scheduler, keeping its position; no effect otherwise.
    pub fn pause(&mut self)
        requires
            old(self).wf(),
        ensures
            final(self).wf(),
            old(self).running_view() ==> final(self).paused_view() && !final(self).running_view(),
            !old(self).running_view() ==> final(self).running_view() == old(self).running_view()
                && final(self).paused_view() == old(self).paused_view() && final(self).stopped_view() == old(self).stopped_view(),
            final(self).pending_view() == old(self).pending_view(),
            final(self).next_beat_view() == old(self).next_beat_view(),
            final(self).beat_view() == old(self).beat_view(),
            final(self).time_signature_view() == old(self).time_signature_view(),
            !old(self).running_view() ==> *final(self) == *old(self),
            old(self).running_view() ==> exists|now: u128| final(self).paused_at_view() == Some(now),
    {
        let now = elapsed_nanos(self.origin);
        self.pause_at(now);
    }

    /// Pause a running scheduler at clock reading `now`, keeping its
    /// position; no effect otherwise.
    pub fn pause_at(&mut self, now: u128)
        requires
            old(self).wf(),
        ensures
            final(self).wf(),
            old(self).running_view() ==> final(self).paused_view() && !final(self).running_view()
                && final(self).paused_at_view() == Some(now),
            !old(self).running_view() ==> final(self).running_view() == old(self).running_view()
                && final(self).paused_view() == old(self).paused_view() && final(self).stopped_view() == old(self).stopped_view()
                && final(self).paused_at_view() == old(self).paused_at_view(),
            final(self).pending_view() == old(self).pending_view(),
            final(self).next_beat_view() == old(self).next_beat_view(),
            final(self).beat_view() == old(self).beat_view(),
            final(self).time_signature_view() == old(self).time_signature_view(),
            !old(self).running_view() ==> *final(self) == *old(self),
    {
        if let SchedulerState::Running = self.state {
            self.state = SchedulerState::Paused { paused_at: now };
            self.is_running = false;
        }
    }

    /// Resume a paused scheduler from its position, moving the next beat
    /// later by the length of the pause; no effect otherwise.
    pub fn resume(&mut self)
        requires
            old(self).wf(),
        ensures
            final(self).wf(),
            old(self).paused_view() ==> final(self).running_view(),
            !old(self).paused_view() ==> final(self).running_view() == old(self).running_view()
                && final(self).paused_view() == old(self).paused_view() && final(self).stopped_view() == old(self).stopped_view(),
            final(self).pending_view() == old(self).pending_view(),
            final(self).beat_view() == old(self).beat_view(),
            final(self).time_signature_view() == old(self).time_signature_view(),
            !old(self).paused_view() ==> *final(self) == *old(self),
            old(self).paused_view() ==> !final(self).paused_view() && !final(self).stopped_view(),
            old(self).paused_at_view() matches Some(p) ==> exists|now: u128| final(self).next_beat_view()
                == #[trigger] shifted_by_pause(old(self).next_beat_view(), p, now),
    {
        let now = elapsed_nanos(self.origin);
        self.resume_at(now);
    }

    /// Resume a paused scheduler at clock reading `now`, moving the next beat
    /// later by the length of the pause; no effect otherwise.
    pub fn resume_at(&mut self, now: u128)
        requires
            old(self).wf(),
        ensures
            final(self).wf(),
            old(self).paused_at_view() matches Some(p) ==> final(self).running_view()
                && final(self).next_beat_view() == shifted_by_pause(old(self).next_beat_view(), p, now),
            !old(self).paused_view() ==> final(self).running_view() == old(self).running_view()
                && final(self).paused_view() == old(self).paused_view() && final(self).stopped_view() == old(self).stopped_view()
                && final(self).next_beat_view() == old(self).next_beat_view(),
            final(self).pending_view() == old(self).pending_view(),
            final(self).beat_view() == old(self).beat_view(),
            final(self).time_signature_view() == old(self).time_signature_view(),
            !old(self).paused_view() ==> *final(self) == *old(self),
            old(self).paused_view() ==> !final(self).paused_view() && !final(self).stopped_view(),
    {
        if let SchedulerState::Paused { paused_at } = self.state {
            let pause_length: u128 = if now >= paused_at { now - paused_at } else { 0 };
            if let Some(next_time) = self.next_beat_time {
                self.next_beat_time = Some(next_time.saturating_add(pause_length));
            }
            self.state = SchedulerState::Running;
            self.is_running = true;
        }
    }

    /// Whether the next beat is due. A running scheduler with no beat scheduled
    /// triggers at once and schedules the following beat `beat_interval_ms`
    /// milliseconds ahead; with a beat scheduled, it triggers once that time
    /// has been reached. A scheduler that is not running never triggers.
    pub fn should_trigger(&mut self, beat_interval_ms: u64) -> (r: bool)
        requires
            old(self).wf(),
        ensures
            final(self).wf(),
            !old(self).running_view() ==> !r,
            old(self).running_view() && !old(self).pending_view() ==> r && final(self).pending_view(),
            old(self).pending_view() ==> final(self).pending_view() && final(self).next_beat_view()
                == old(self).next_beat_view(),
            final(self).running_view() == old(self).running_view(),
            final(self).paused_view() == old(self).paused_view(),
            final(self).stopped_view() == old(self).stopped_view(),
            final(self).beat_view() == old(self).beat_view(),
            final(self).time_signature_view() == old(self).time_signature_view(),
    {
        let now = elapsed_nanos(self.origin);
        self.should_trigger_at(now, beat_interval_ms)
    }

    /// Whether the next beat is due at clock reading `now`: at once for a
    /// running scheduler with no beat scheduled, which then schedules the
    /// following beat `beat_interval_ms` milliseconds after `now`; once `now`
    /// has reached the scheduled reading otherwise. A scheduler that is not
    /// running never triggers.
    pub fn should_trigger_at(&mut self, now: u128, beat_interval_ms: u64) -> (r: bool)
        requires
            old(self).wf(),
        ensures
            final(self).wf(),
            r == (old(self).running_view() && match old(self).next_beat_view() {
                None => true,
                Some(t) => now >= t,
            }),
            final(self).next_beat_view() == if old(self).running_view() && old(self).next_beat_view() is None {
                Some(reading_after(now, beat_interval_ms))
            } else {
                old(self).next_beat_view()
            },
            final(self).running_view() == old(self).running_view(),
            final(self).paused_view() == old(self).paused_view(),
            final(self).paused_at_view() == old(self).paused_at_view(),
            final(self).stopped_view() == old(self).stopped_view(),
            final(self).beat_view() == old(self).beat_view(),
            final(self).time_signature_view() == old(self).time_signature_view(),
    {
        if !self.is_running {
            return false;
        }
        if let SchedulerState::Running = self.state {
        } else {
            return false;
        }
        match self.next_beat_time {
            None => {
                self.schedule_next_beat(now, beat_interval_ms);
                true
            },
            Some(scheduled_time) => now >= scheduled_time,
        }
    }

    /// Advance to the next beat (wrapping to 1 after the last beat of the
    /// measure) and schedule it `beat_interval_ms` milliseconds from now.
    pub fn advance_beat(&mut self, beat_interval_ms: u64)
        requires
            old(self).wf(),
            old(self).beat_view() < u8::MAX,
        ensures
            final(self).wf(),
            final(self).beat_view() == next_beat_number(
                old(self).beat_view() as int,
                old(self).time_signature_view().beats_per_measure as int,
            ),
            final(self).pending_view(),
            final(self).running_view() == old(self).running_view(),
            final(self).paused_view() == old(self).paused_view(),
            final(self).stopped_view() == old(self).stopped_view(),
            final(self).time_signature_view() == old(self).time_signature_view(),
    {
        let now = elapsed_nanos(self.origin);
        self.advance_beat_at(now, beat_interval_ms);
    }

    /// Advance to the next beat (wrapping to 1 after the last beat of the
    /// measure) and schedule it `beat_interval_ms` milliseconds after clock
    /// reading `now`, so that no drift accumulates.
    pub fn advance_beat_at(&mut self, now: u128, beat_interval_ms: u64)
        requires
            old(self).wf(),
            old(self).beat_view() < u8::MAX,
        ensures
            final(self).wf(),
            final(self).beat_view() == next_beat_number(
                old(self).beat_view() as int,
                old(self).time_signature_view().beats_per_measure as int,
            ),
            final(self).next_beat_view() == Some(reading_after(now, beat_interval_ms)),
            final(self).running_view() == old(self).running_view(),
            final(self).paused_view() == old(self).paused_view(),
            final(self).paused_at_view() == old(self).paused_at_view(),
            final(self).stopped_view() == old(self).stopped_view(),
            final(self).time_signature_view() == old(self).time_signature_view(),
    {
        self.current_beat = self.current_beat + 1;
        if self.current_beat > self.time_signature.beats_per_measure {
            self.current_beat = 1;
        }
        self.schedule_next_beat(now, beat_interval_ms);
    }

    /// Current beat number (1-based).
    pub fn current_beat(&self) -> (r: u8)
        ensures
            r == self.beat_view(),
    {
        self.current_beat
    }

    /// The time signature.
    pub fn time_signature(&self) -> (r: TimeSignature)
        ensures
            r == self.time_signature_view(),
    {
        self.time_signature
    }

    /// Set the time signature, returning to beat 1 when the current beat no
    /// longer fits in the measure.
    pub fn set_time_signature(&mut self, time_signature: TimeSignature)
        requires
            old(self).wf(),
        ensures
            final(self).wf(),
            final(self).time_signature_view() == time_signature,
            final(self).beat_view() == if old(self).beat_view() > time_signature.beats_per_measure {
                1
            } else {
                old(self).beat_view()
            },
            final(self).running_view() == old(self).running_view(),
            final(self).paused_view() == old(self).paused_view(),
            final(self).stopped_view() == old(self).stopped_view(),
            final(self).pending_view() == old(self).pending_view(),
    {
        self.time_signature = time_signature;
        if self.current_beat > time_signature.beats_per_measure {
            self.current_beat = 1;
        }
    }

    /// Whether the scheduler is running.
    pub fn is_running(&self) -> (r: bool)
        ensures
            r == self.running_view(),
    {
        self.is_running
    }

    /// Schedule the next beat `beat_interval_ms` milliseconds after `now`.
    fn schedule_next_beat(&mut self, now: u128, beat_interval_ms: u64)
        ensures
            final(self).next_beat_time == Some(reading_after(now, beat_interval_ms)),
            final(self).origin == old(self).origin,
            final(self).state == old(self).state,
            final(self).is_running == old(self).is_running,
            final(self).current_beat == old(self).current_beat,
            final(self).time_signature == old(self).time_signature,
    {
        let delay: u128 = (beat_interval_ms as u128) * NANOS_PER_MILLI;
        self.next_beat_time = Some(now.saturating_add(delay));
    }
}

/// Pausing and resuming keeps the time left until the next beat: a beat due
/// `d` nanoseconds after the pause is due `d` nanoseconds after the resume
/// (while the readings stay within the counter).
pub proof fn law_pause_keeps_time_to_next_beat(next: u128, paused_at: u128, now: u128)
    requires
        paused_at <= now,
        next + (now - paused_at) <= u128::MAX,
    ensures
        shifted_by_pause(Some(next), paused_at, now) == Some((next + (now - paused_at)) as u128),
        shifted_by_pause(Some(next), paused_at, now).unwrap() - now == next - paused_at,
{
}

/// Advancing a well-formed scheduler keeps its beat within the measure: the
/// beat after `b` is `b + 1`, or 1 after the last beat of the measure.
pub proof fn law_beat_wraps(beat: int, beats_per_measure: int)
    requires
        1 <= beat,
        beat <= beats_per_measure || beat == 1,
    ensures
        1 <= next_beat_number(beat, beats_per_measure),
        next_beat_number(beat, beats_per_measure) <= beats_per_measure || next_beat_number(
            beat,
            beats_per_measure,
        ) == 1,
        beats_per_measure >= 1 ==> next_beat_number(beat, beats_per_measure) == beat
            % beats_per_measure + 1,
{
    if beats_per_measure >= 1 && beat < beats_per_measure {
        assert(beat % beats_per_measure == beat) by (nonlinear_arith)
            requires
                0 <= beat < beats_per_measure,
        ;
    }
}

} // verus!
