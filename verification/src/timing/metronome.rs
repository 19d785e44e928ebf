//! Simple metronome: regular beats with an optional accent on the first beat.

use vstd::prelude::*;
use super::clock::{DiscreteScheduler, next_beat_number, reading_after, shifted_by_pause};
use super::types::{ClickType, TimeSignature};

verus! {

/// What a metronome beat plays: its number, whether it is accented, and the sound.
#[derive(Debug, Clone, Copy, PartialEq, Eq, Structural)]
pub struct BeatTrigger {
    /// 1-based beat number within the measure
    pub beat_number: u8,
    /// Whether the beat is accented
    pub accent: bool,
    /// The click sound to play
    pub click: ClickType,
}

/// Metronome for regular beats.
pub struct Metronome {
    scheduler: DiscreteScheduler,
    accent_first_beat: bool,
    click_type: ClickType,
    accent_click_type: ClickType,
}

impl Metronome {
    /// The beat scheduler.
    pub closed spec fn scheduler_view(&self) -> DiscreteScheduler {
        self.scheduler
    }

    /// Whether the first beat of each measure is accented.
    pub closed spec fn accent_first_beat_view(&self) -> bool {
        self.accent_first_beat
    }

    /// The sound of regular beats.
    pub closed spec fn click_type_view(&self) -> ClickType {
        self.click_type
    }

    /// The sound of accented beats.
    pub closed spec fn accent_click_type_view(&self) -> ClickType {
        self.accent_click_type
    }

    /// Well-formedness of the underlying scheduler.
    pub open spec fn wf(&self) -> bool {
        self.scheduler_view().wf()
    }

    /// The trigger for beat `beat` under the current accent and sound settings.
    pub open spec fn trigger_for(&self, beat: u8) -> BeatTrigger {
        let accent = self.accent_first_beat_view() && beat == 1;
        BeatTrigger {
            beat_number: beat,
            accent,
            click: if accent {
                self.accent_click_type_view()
            } else {
                self.click_type_view()
            },
        }
    }

    /// A stopped metronome at beat 1, accenting the first beat, with a wood
    /// block click and a cowbell accent.
    pub fn new(time_signature: TimeSignature) -> (r: Self)
        ensures
            r.wf(),
            r.scheduler_view().stopped_view(),
            !r.scheduler_view().running_view(),
            !r.scheduler_view().pending_view(),
            r.scheduler_view().beat_view() == 1,
            r.scheduler_view().time_signature_view() == time_signature,
            r.accent_first_beat_view(),
            r.click_type_view() == ClickType::WoodBlock,
            r.accent_click_type_view() == ClickType::Cowbell,
    {
        Self {
            scheduler: DiscreteScheduler::new(time_signature),
            accent_first_beat: true,
            click_type: ClickType::WoodBlock,
            accent_click_type: ClickType::Cowbell,
        }
    }

    /// Set the time signature (the beat returns to 1 if it no longer fits).
    pub fn set_time_signature(&mut self, time_signature: TimeSignature)
        requires
            old(self).wf(),
        ensures
            final(self).wf(),
            final(self).scheduler_view().time_signature_view() == time_signature,
            final(self).scheduler_view().beat_view() == if old(self).scheduler_view().beat_view()
                > time_signature.beats_per_measure {
                1
            } else {
                old(self).scheduler_view().beat_view()
            },
            final(self).scheduler_view().running_view() == old(self).scheduler_view().running_view(),
            final(self).scheduler_view().paused_view() == old(self).scheduler_view().paused_view(),
            final(self).scheduler_view().stopped_view() == old(self).scheduler_view().stopped_view(),
            final(self).scheduler_view().pending_view() == old(self).scheduler_view().pending_view(),
            final(self).accent_first_beat_view() == old(self).accent_first_beat_view(),
            final(self).click_type_view() == old(self).click_type_view(),
            final(self).accent_click_type_view() == old(self).accent_click_type_view(),
    {
        self.scheduler.set_time_signature(time_signature);
    }

    /// Set whether to accent the first beat.
    pub fn set_accent_first_beat(&mut self, accent: bool)
        ensures
            final(self).scheduler_view() == old(self).scheduler_view(),
            final(self).accent_first_beat_view() == accent,
            final(self).click_type_view() == old(self).click_type_view(),
            final(self).accent_click_type_view() == old(self).accent_click_type_view(),
    {
        self.accent_first_beat = accent;
    }

    /// Set the click sound.
    pub fn set_click_type(&mut self, click_type: ClickType)
        ensures
            final(self).scheduler_view() == old(self).scheduler_view(),
            final(self).accent_first_beat_view() == old(self).accent_first_beat_view(),
            final(self).click_type_view() == click_type,
            final(self).accent_click_type_view() == old(self).accent_click_type_view(),
    {
        self.click_type = click_type;
    }

    /// Set the accent click sound (for downbeats).
    pub fn set_accent_click_type(&mut self, accent_click_type: ClickType)
        ensures
            final(self).scheduler_view() == old(self).scheduler_view(),
            final(self).accent_first_beat_view() == old(self).accent_first_beat_view(),
            final(self).click_type_view() == old(self).click_type_view(),
            final(self).accent_click_type_view() == accent_click_type,
    {
        self.accent_click_type = accent_click_type;
    }

    /// Start from beat 1.
    pub fn start(&mut self)
        ensures
            final(self).wf(),
            final(self).scheduler_view().running_view(),
            !final(self).scheduler_view().pending_view(),
            final(self).scheduler_view().beat_view() == 1,
            final(self).scheduler_view().time_signature_view() == old(self).scheduler_view().time_signature_view(),
            final(self).accent_first_beat_view() == old(self).accent_first_beat_view(),
            final(self).click_type_view() == old(self).click_type_view(),
            final(self).accent_click_type_view() == old(self).accent_click_type_view(),
    {
        self.scheduler.start();
    }

    /// Stop and reset to beat 1.
    pub fn stop(&mut self)
        ensures
            final(self).wf(),
            final(self).scheduler_view().stopped_view(),
            !final(self).scheduler_view().running_view(),
            !final(self).scheduler_view().pending_view(),
            final(self).scheduler_view().beat_view() == 1,
            final(self).scheduler_view().time_signature_view() == old(self).scheduler_view().time_signature_view(),
            final(self).accent_first_beat_view() == old(self).accent_first_beat_view(),
            final(self).click_type_view() == old(self).click_type_view(),
            final(self).accent_click_type_view() == old(self).accent_click_type_view(),
    {
        self.scheduler.stop();
    }

    /// Pause, keeping the beat position.
    pub fn pause(&mut self)
        requires
            old(self).wf(),
        ensures
            final(self).wf(),
            old(self).scheduler_view().running_view() ==> final(self).scheduler_view().paused_view()
                && !final(self).scheduler_view().running_view(),
            !old(self).scheduler_view().running_view() ==> final(self).scheduler_view().running_view()
                == old(self).scheduler_view().running_view() && final(self).scheduler_view().paused_view()
                == old(self).scheduler_view().paused_view(),
            final(self).scheduler_view().beat_view() == old(self).scheduler_view().beat_view(),
            final(self).scheduler_view().pending_view() == old(self).scheduler_view().pending_view(),
            final(self).scheduler_view().time_signature_view() == old(self).scheduler_view().time_signature_view(),
            final(self).accent_first_beat_view() == old(self).accent_first_beat_view(),
            final(self).click_type_view() == old(self).click_type_view(),
            final(self).accent_click_type_view() == old(self).accent_click_type_view(),
            final(self).scheduler_view().next_beat_view() == old(self).scheduler_view().next_beat_view(),
            !old(self).scheduler_view().running_view() ==> final(self).scheduler_view() == old(self).scheduler_view(),
    {
        self.scheduler.pause();
    }

    /// Resume from the paused position.
    pub fn resume(&mut self)
        requires
            old(self).wf(),
        ensures
            final(self).wf(),
            old(self).scheduler_view().paused_view() ==> final(self).scheduler_view().running_view(),
            !old(self).scheduler_view().paused_view() ==> final(self).scheduler_view().running_view()
                == old(self).scheduler_view().running_view() && final(self).scheduler_view().paused_view()
                == old(self).scheduler_view().paused_view(),
            final(self).scheduler_view().beat_view() == old(self).scheduler_view().beat_view(),
            final(self).scheduler_view().pending_view() == old(self).scheduler_view().pending_view(),
            final(self).scheduler_view().time_signature_view() == old(self).scheduler_view().time_signature_view(),
            final(self).accent_first_beat_view() == old(self).accent_first_beat_view(),
            final(self).click_type_view() == old(self).click_type_view(),
            final(self).accent_click_type_view() == old(self).accent_click_type_view(),
            !old(self).scheduler_view().paused_view() ==> final(self).scheduler_view() == old(self).scheduler_view(),
            old(self).scheduler_view().paused_view() ==> !final(self).scheduler_view().paused_view()
                && !final(self).scheduler_view().stopped_view(),
            old(self).scheduler_view().paused_at_view() matches Some(p) ==> exists|now: u128|
                final(self).scheduler_view().next_beat_view() == #[trigger] shifted_by_pause(
                    old(self).scheduler_view().next_beat_view(),
                    p,
                    now,
                ),
    {
        self.scheduler.resume();
    }

    /// If a beat is due, return what it plays and move to the next beat, which
    /// is scheduled `beat_interval_ms` milliseconds ahead. A stopped or paused
    /// metronome returns `None`; a running one with no beat scheduled returns
    /// its current beat at once.
    pub fn poll_beat(&mut self, beat_interval_ms: u64) -> (r: Option<BeatTrigger>)
        requires
            old(self).wf(),
            old(self).scheduler_view().beat_view() < u8::MAX,
        ensures
            final(self).wf(),
            !old(self).scheduler_view().running_view() ==> r is None,
            old(self).scheduler_view().running_view() && !old(self).scheduler_view().pending_view()
                ==> r is Some,
            r matches Some(t) ==> t == old(self).trigger_for(old(self).scheduler_view().beat_view())
                && final(self).scheduler_view().beat_view() == next_beat_number(
                old(self).scheduler_view().beat_view() as int,
                old(self).scheduler_view().time_signature_view().beats_per_measure as int,
            ),
            r is None ==> final(self).scheduler_view().beat_view() == old(self).scheduler_view().beat_view(),
            final(self).scheduler_view().running_view() == old(self).scheduler_view().running_view(),
            final(self).scheduler_view().paused_view() == old(self).scheduler_view().paused_view(),
            final(self).scheduler_view().stopped_view() == old(self).scheduler_view().stopped_view(),
            old(self).scheduler_view().pending_view() ==> final(self).scheduler_view().pending_view(),
            r is Some ==> final(self).scheduler_view().pending_view(),
            final(self).scheduler_view().time_signature_view() == old(self).scheduler_view().time_signature_view(),
            final(self).accent_first_beat_view() == old(self).accent_first_beat_view(),
            final(self).click_type_view() == old(self).click_type_view(),
            final(self).accent_click_type_view() == old(self).accent_click_type_view(),
    {
        if self.scheduler.should_trigger(beat_interval_ms) {
            let current_beat = self.scheduler.current_beat();
            let is_downbeat = current_beat == 1;
            let should_accent = self.accent_first_beat && is_downbeat;
            let click_sound = if should_accent {
                self.accent_click_type
            } else {
                self.click_type
            };
            let trigger = BeatTrigger { beat_number: current_beat, accent: should_accent, click: click_sound };
            self.scheduler.advance_beat(beat_interval_ms);
            Some(trigger)
        } else {
            None
        }
    }

    /// `poll_beat` at clock reading `now`: if the scheduler is due at `now`,
    /// return what the current beat plays and move to the next beat, due
    /// `beat_interval_ms` milliseconds after `now`.
    pub fn poll_beat_at(&mut self, now: u128, beat_interval_ms: u64) -> (r: Option<BeatTrigger>)
        requires
            old(self).wf(),
            old(self).scheduler_view().beat_view() < u8::MAX,
        ensures
            final(self).wf(),
            r is Some <==> (old(self).scheduler_view().running_view() && match old(
                self,
            ).scheduler_view().next_beat_view() {
                None => true,
                Some(t) => now >= t,
            }),
            r matches Some(t) ==> t == old(self).trigger_for(old(self).scheduler_view().beat_view())
                && final(self).scheduler_view().beat_view() == next_beat_number(
                old(self).scheduler_view().beat_view() as int,
                old(self).scheduler_view().time_signature_view().beats_per_measure as int,
            ) && final(self).scheduler_view().next_beat_view() == Some(reading_after(now, beat_interval_ms)),
            r is None ==> final(self).scheduler_view().beat_view() == old(self).scheduler_view().beat_view()
                && final(self).scheduler_view().next_beat_view() == old(self).scheduler_view().next_beat_view(),
            final(self).scheduler_view().running_view() == old(self).scheduler_view().running_view(),
            final(self).scheduler_view().paused_view() == old(self).scheduler_view().paused_view(),
            final(self).scheduler_view().stopped_view() == old(self).scheduler_view().stopped_view(),
            final(self).scheduler_view().time_signature_view() == old(self).scheduler_view().time_signature_view(),
            final(self).accent_first_beat_view() == old(self).accent_first_beat_view(),
            final(self).click_type_view() == old(self).click_type_view(),
            final(self).accent_click_type_view() == old(self).accent_click_type_view(),
    {
        if self.scheduler.should_trigger_at(now, beat_interval_ms) {
            let current_beat = self.scheduler.current_beat();
            let is_downbeat = current_beat == 1;
            let should_accent = self.accent_first_beat && is_downbeat;
            let click_sound = if should_accent {
                self.accent_click_type
            } else {
                self.click_type
            };
            let trigger = BeatTrigger { beat_number: current_beat, accent: should_accent, click: click_sound };
            self.scheduler.advance_beat_at(now, beat_interval_ms);
            Some(trigger)
        } else {
            None
        }
    }

    /// Whether the metronome is running.
    pub fn is_running(&self) -> (r: bool)
        ensures
            r == self.scheduler_view().running_view(),
    {
        self.scheduler.is_running()
    }

    /// Current beat within the measure (1-based).
    pub fn current_beat(&self) -> (r: u8)
        ensures
            r == self.scheduler_view().beat_view(),
    {
        self.scheduler.current_beat()
    }

    /// The time signature.
    pub fn time_signature(&self) -> (r: TimeSignature)
        ensures
            r == self.scheduler_view().time_signature_view(),
    {
        self.scheduler.time_signature()
    }
}

} // verus!
