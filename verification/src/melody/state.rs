//! Melody assistant state: keeps a chord progression generated ahead of the
//! beat on a moving timeline, following the metronome and the chosen key.

use vstd::prelude::*;
use super::generator::{GenerationContext, remembered};
use super::theory::StandardMusicTheory;
use super::timeline::{
    MovingTimeline, TimelineDisplayData, finished_prefix_len, first_active_index, insertion_index,
    lemma_first_active_bounds, lemma_insertion_index_bounds, next_free_beat,
};
use super::types::{Chord, ChordEvent, KeySelection, Note, TimelineConfig};
use crate::timing::TimeSignature;

verus! {

/// Picks the next chord of a progression for the melody assistant.
pub trait ChordSource {
    /// The chord to follow `current_chord` within `key_selection`, if any.
    fn generate_next_chord(
        &mut self,
        current_chord: Option<&Chord>,
        key_selection: &KeySelection,
        context: &GenerationContext,
    ) -> Option<Chord>;
}

/// The first beat at or past `target` when stepping from `start` by `step`
/// (`start` itself when it is already there).
pub open spec fn generation_end(start: int, target: int, step: int) -> int
    decreases if target > start {
        target - start
    } else {
        0
    },
{
    if step <= 0 || start >= target {
        start
    } else {
        generation_end(start + step, target, step)
    }
}

/// Beat `beat` is one of the beats a generation run starting at `start` with
/// chords of `step` beats places chords on, before `target`.
pub open spec fn generation_beat(start: int, target: int, step: int, beat: int) -> bool {
    &&& start <= beat < target
    &&& step > 0
    &&& (beat - start) % step == 0
}

/// `after` holds every event of `before`, and each other event is a generated
/// chord: `step` beats long, in `key`, on a generation beat from `start` up to `target`.
pub open spec fn extends_with_generated(
    before: Seq<ChordEvent>,
    after: Seq<ChordEvent>,
    start: int,
    target: int,
    step: int,
    key: Note,
) -> bool {
    &&& forall|e: ChordEvent| before.contains(e) ==> after.contains(e)
    &&& forall|e: ChordEvent|
        after.contains(e) ==> before.contains(e) || (e.duration_beats == step && e.key_center == key
            && generation_beat(start, target, step, e.beat_position as int))
}

/// One call of the chord source during generation: what it was handed and
/// what it gave back.
pub struct ChordRequest {
    /// The chord sounding on the beat before the generation beat.
    pub current_chord: Option<Chord>,
    pub key_selection: KeySelection,
    /// The generation context; its current beat is the generation beat.
    pub context: GenerationContext,
    pub answer: Option<Chord>,
}

/// The chord `events` sound on the beat before `beat` (on beat 0 when `beat` is 0).
pub open spec fn chord_before(events: Seq<ChordEvent>, beat: int) -> Option<Chord> {
    let prev = if beat > 0 {
        beat - 1
    } else {
        0
    };
    let i = first_active_index(events, prev);
    if 0 <= i < events.len() {
        Some(events[i].chord)
    } else {
        None
    }
}

/// The events once the chord source answered `answer` for beat `beat`: a chord
/// is inserted as an unaccented event of `step` beats in `key` after the events
/// starting at or before `beat`; no chord leaves them as they are.
pub open spec fn placed(
    events: Seq<ChordEvent>,
    answer: Option<Chord>,
    beat: u32,
    step: u32,
    key: Note,
) -> Seq<ChordEvent> {
    match answer {
        Some(c) => events.insert(
            insertion_index(events, beat),
            ChordEvent { chord: c, beat_position: beat, duration_beats: step, key_center: key, accent: false },
        ),
        None => events,
    }
}

/// The chord history after an answer: a chord is remembered, no chord changes nothing.
pub open spec fn heard(recent: Seq<Chord>, answer: Option<Chord>) -> Seq<Chord> {
    match answer {
        Some(c) => remembered(recent, c),
        None => recent,
    }
}

/// The events once the requests of `log` were answered in order, from `before`.
pub open spec fn answered_events(
    log: Seq<ChordRequest>,
    before: Seq<ChordEvent>,
    step: u32,
    key: Note,
) -> Seq<ChordEvent>
    decreases log.len(),
{
    if log.len() == 0 {
        before
    } else {
        placed(
            answered_events(log.drop_last(), before, step, key),
            log.last().answer,
            log.last().context.current_beat,
            step,
            key,
        )
    }
}

/// The chord history after the answers of `log`, from an empty one.
pub open spec fn answered_history(log: Seq<ChordRequest>) -> Seq<Chord>
    decreases log.len(),
{
    if log.len() == 0 {
        Seq::empty()
    } else {
        heard(answered_history(log.drop_last()), log.last().answer)
    }
}

/// Request `i` of a generation run over `before` from `start`: it is made for
/// beat `start + i * step`, before `target`, with the chord the events then
/// sound on the beat before, `selection`, and a context at that beat in `key`
/// and `time_signature`, on the first beat of its measure, holding the chords
/// answered so far.
pub open spec fn request_at(
    log: Seq<ChordRequest>,
    before: Seq<ChordEvent>,
    start: int,
    target: int,
    step: u32,
    key: Note,
    selection: KeySelection,
    time_signature: TimeSignature,
    i: int,
) -> bool {
    let r = log[i];
    let earlier = log.take(i);
    &&& r.context.current_beat == start + i * step
    &&& r.context.current_beat < target
    &&& r.current_chord == chord_before(
        answered_events(earlier, before, step, key),
        r.context.current_beat as int,
    )
    &&& r.key_selection == selection
    &&& r.context.current_key == Some(key)
    &&& r.context.measure_position == 1
    &&& r.context.time_signature == time_signature
    &&& r.context.recent_chords@ == answered_history(earlier)
}

/// `log` holds the requests of one generation run over `before`: one for each
/// beat from `start` up to `target` in steps of `step`, in order, as
/// `request_at` describes; answering them gave `after`.
pub open spec fn generation_run(
    log: Seq<ChordRequest>,
    before: Seq<ChordEvent>,
    after: Seq<ChordEvent>,
    start: int,
    target: int,
    step: u32,
    key: Note,
    selection: KeySelection,
    time_signature: TimeSignature,
) -> bool {
    &&& start + log.len() * step == generation_end(start, target, step as int)
    &&& forall|i: int|
        0 <= i < log.len() ==> #[trigger] request_at(
            log,
            before,
            start,
            target,
            step,
            key,
            selection,
            time_signature,
            i,
        )
    &&& after == answered_events(log, before, step, key)
}

/// Where generation resumes after the upcoming chords were dropped at `beat`:
/// where the last kept chord ends, when that is after `beat` (but not past
/// `target`), else at `beat`.
pub open spec fn resume_beat(kept: Seq<ChordEvent>, beat: int, target: int) -> int {
    let free = next_free_beat(kept);
    if free > beat {
        if free < target {
            free
        } else {
            target
        }
    } else {
        beat
    }
}

proof fn lemma_insert_contains(s: Seq<ChordEvent>, i: int, x: ChordEvent, y: ChordEvent)
    requires
        0 <= i <= s.len(),
    ensures
        s.insert(i, x).contains(y) <==> (s.contains(y) || y == x),
{
    let t = s.insert(i, x);
    if s.contains(y) {
        let k = choose|k: int| 0 <= k < s.len() && s[k] == y;
        if k < i {
            assert(t[k] == y);
        } else {
            assert(t[k + 1] == y);
        }
    }
    if y == x {
        assert(t[i] == y);
    }
    if t.contains(y) {
        let k = choose|k: int| 0 <= k < t.len() && t[k] == y;
        if k < i {
            assert(s[k] == y);
        } else if k > i {
            assert(s[k - 1] == y);
        }
    }
}

/// Real-time state of the melody assistant.
pub struct MelodyAssistantState<G> {
    timeline: MovingTimeline,
    generator: G,
    music_theory: StandardMusicTheory,
    key_selection: KeySelection,
    current_key: Note,
    is_running: bool,
    generation_ahead_beats: u32,
    last_generation_beat: u32,
    time_signature: TimeSignature,
    timeline_config: TimelineConfig,
    /// Every request made of the chord source so far, oldest first.
    requests: Ghost<Seq<ChordRequest>>,
}

impl<G: ChordSource> MelodyAssistantState<G> {
    pub closed spec fn timeline_view(&self) -> MovingTimeline {
        self.timeline
    }

    pub closed spec fn key_selection_view(&self) -> KeySelection {
        self.key_selection
    }

    pub closed spec fn current_key_view(&self) -> Note {
        self.current_key
    }

    pub closed spec fn running_view(&self) -> bool {
        self.is_running
    }

    /// How many beats ahead of the current beat chords are generated.
    pub closed spec fn ahead_view(&self) -> u32 {
        self.generation_ahead_beats
    }

    /// The beat up to which chords have been generated.
    pub closed spec fn last_generation_view(&self) -> u32 {
        self.last_generation_beat
    }

    pub closed spec fn time_signature_view(&self) -> TimeSignature {
        self.time_signature
    }

    /// Beats per generated chord.
    pub closed spec fn chord_length_view(&self) -> u32 {
        self.timeline_config.beats_per_chord as u32
    }

    pub closed spec fn timeline_config_view(&self) -> TimelineConfig {
        self.timeline_config
    }

    /// Every request made of the chord source so far, oldest first.
    pub closed spec fn requests_view(&self) -> Seq<ChordRequest> {
        self.requests@
    }

    /// Since `old`, the chord source was asked exactly the requests of one
    /// generation run over `before` from `start` up to `target`, with the
    /// chord length, key selection and time signature of `old` and the current
    /// key; the current events are what answering them gave.
    pub open spec fn generated_since(&self, old: &Self, before: Seq<ChordEvent>, start: int, target: int) -> bool {
        let n = old.requests_view().len() as int;
        &&& n <= self.requests_view().len()
        &&& self.requests_view().take(n) == old.requests_view()
        &&& generation_run(
            self.requests_view().skip(n),
            before,
            self.events(),
            start,
            target,
            old.chord_length_view(),
            self.current_key_view(),
            old.key_selection_view(),
            old.time_signature_view(),
        )
    }

    /// The timeline's events.
    pub open spec fn events(&self) -> Seq<ChordEvent> {
        self.timeline_view().timeline_view().events_view()
    }

    pub open spec fn wf(&self) -> bool {
        self.timeline_view().wf()
    }

    /// Chords can be generated from beat `beat`: chords have a length and the
    /// generation window stays within the beat counter.
    pub open spec fn can_generate_from(&self, beat: int) -> bool {
        &&& self.chord_length_view() > 0
        &&& beat + self.ahead_view() + self.chord_length_view() <= u32::MAX
    }

    /// Where a generation run from beat `beat` starts: at the last generated
    /// beat, or at `beat` when that is later.
    pub open spec fn generation_start(&self, beat: int) -> int {
        if self.last_generation_view() > beat {
            self.last_generation_view() as int
        } else {
            beat
        }
    }

    /// All settings and the position stay as in `old`; only the events and the
    /// last generated beat may differ.
    pub open spec fn same_settings(&self, old: &Self) -> bool {
        &&& self.timeline_view().current_beat_view() == old.timeline_view().current_beat_view()
        &&& self.timeline_view().measures_ahead_view() == old.timeline_view().measures_ahead_view()
        &&& self.timeline_view().timeline_view().time_signature_view() == old.timeline_view().timeline_view().time_signature_view()
        &&& self.timeline_view().timeline_view().beats_per_chord_view() == old.timeline_view().timeline_view().beats_per_chord_view()
        &&& self.timeline_view().timeline_view().auto_advance_view() == old.timeline_view().timeline_view().auto_advance_view()
        &&& self.key_selection_view() == old.key_selection_view()
        &&& self.current_key_view() == old.current_key_view()
        &&& self.running_view() == old.running_view()
        &&& self.ahead_view() == old.ahead_view()
        &&& self.time_signature_view() == old.time_signature_view()
        &&& self.timeline_config_view() == old.timeline_config_view()
    }

    /// Place what the chord source gave for beat `beat`: a chord becomes a
    /// chord event of one chord length in the current key, unaccented,
    /// inserted after the events that start at or before `beat`; without a
    /// chord nothing changes.
    pub fn place_generated(&mut self, generated: Option<Chord>, beat: u32)
        requires
            old(self).wf(),
        ensures
            final(self).wf(),
            final(self).same_settings(old(self)),
            final(self).last_generation_view() == old(self).last_generation_view(),
            final(self).requests_view() == old(self).requests_view(),
            final(self).events() == placed(
                old(self).events(),
                generated,
                beat,
                old(self).chord_length_view(),
                old(self).current_key_view(),
            ),
            match generated {
                Some(c) => final(self).events() == old(self).events().insert(
                    insertion_index(old(self).events(), beat),
                    ChordEvent {
                        chord: c,
                        beat_position: beat,
                        duration_beats: old(self).chord_length_view(),
                        key_center: old(self).current_key_view(),
                        accent: false,
                    },
                ),
                None => final(self).events() == old(self).events(),
            },
    {
        if let Some(chord) = generated {
            let beats_per_chord = self.timeline_config.beats_per_chord as u32;
            let event = ChordEvent::new(chord, beat, beats_per_chord, self.current_key);
            self.timeline.timeline_mut().add_chord_event(event);
        }
    }

    /// Ask the chord source for the chord to follow `current_chord`, handing it
    /// the key selection and `context`, and record the request with its answer.
    fn ask_source(&mut self, current_chord: Option<Chord>, context: &GenerationContext) -> (r: Option<Chord>)
        ensures
            final(self).requests_view() == old(self).requests_view().push(
                (ChordRequest {
                    current_chord,
                    key_selection: old(self).key_selection_view(),
                    context: *context,
                    answer: r,
                }),
            ),
            final(self).timeline_view() == old(self).timeline_view(),
            final(self).same_settings(old(self)),
            final(self).last_generation_view() == old(self).last_generation_view(),
    {
        let r = match current_chord {
            Some(c) => self.generator.generate_next_chord(Some(&c), &self.key_selection, context),
            None => self.generator.generate_next_chord(None, &self.key_selection, context),
        };
        self.requests = Ghost(
            self.requests@.push(
                ChordRequest {
                    current_chord,
                    key_selection: self.key_selection,
                    context: *context,
                    answer: r,
                },
            ),
        );
        r
    }

    /// Generate chords from the last generated beat (or `current_beat`, when
    /// later) up to `generation_ahead_beats` past `current_beat`, one every
    /// chord length, each following the chord sounding just before it.
    fn generate_ahead(&mut self, current_beat: u32)
        requires
            old(self).wf(),
            old(self).can_generate_from(current_beat as int),
        ensures
            final(self).wf(),
            final(self).same_settings(old(self)),
            extends_with_generated(
                old(self).events(),
                final(self).events(),
                old(self).generation_start(current_beat as int),
                current_beat + old(self).ahead_view(),
                old(self).chord_length_view() as int,
                old(self).current_key_view(),
            ),
            final(self).last_generation_view() == generation_end(
                old(self).generation_start(current_beat as int),
                current_beat + old(self).ahead_view(),
                old(self).chord_length_view() as int,
            ),
            final(self).generated_since(
                old(self),
                old(self).events(),
                old(self).generation_start(current_beat as int),
                current_beat + old(self).ahead_view(),
            ),
    {
        let ghost old_self = *self;
        let ghost n0 = self.requests@.len() as int;
        let mut context = GenerationContext::new(self.time_signature);
        context.current_beat = current_beat;
        context.current_key = Some(self.current_key);
        let target = current_beat + self.generation_ahead_beats;
        let mut gen_beat = if self.last_generation_beat > current_beat {
            self.last_generation_beat
        } else {
            current_beat
        };
        let beats_per_chord = self.timeline_config.beats_per_chord as u32;
        let ghost start = gen_beat as int;
        let ghost step = beats_per_chord as int;
        proof {
            assert((gen_beat - start) % step == 0) by (nonlinear_arith)
                requires
                    gen_beat == start,
                    step > 0,
            ;
            assert(self.requests@.skip(n0) =~= Seq::<ChordRequest>::empty());
            assert(self.requests@.take(n0) =~= self.requests@);
        }
        while gen_beat < target
            invariant
                self.wf(),
                self.same_settings(&old_self),
                self.last_generation_beat == old_self.last_generation_beat,
                beats_per_chord == old_self.chord_length_view(),
                step == beats_per_chord,
                beats_per_chord > 0,
                target == current_beat + old_self.ahead_view(),
                target + beats_per_chord <= u32::MAX,
                start <= gen_beat,
                (gen_beat - start) % step == 0,
                generation_end(gen_beat as int, target as int, step) == generation_end(start, target as int, step),
                extends_with_generated(old_self.events(), self.events(), start, target as int, step, old_self.current_key_view()),
                n0 == old_self.requests_view().len(),
                n0 <= self.requests@.len(),
                self.requests@.take(n0) == old_self.requests_view(),
                gen_beat == start + self.requests@.skip(n0).len() * step,
                forall|i: int|
                    0 <= i < self.requests@.skip(n0).len() ==> #[trigger] request_at(
                        self.requests@.skip(n0),
                        old_self.events(),
                        start,
                        target as int,
                        beats_per_chord,
                        old_self.current_key_view(),
                        old_self.key_selection_view(),
                        old_self.time_signature_view(),
                        i,
                    ),
                self.events() == answered_events(
                    self.requests@.skip(n0),
                    old_self.events(),
                    beats_per_chord,
                    old_self.current_key_view(),
                ),
                context.current_key == Some(old_self.current_key_view()),
                context.measure_position == 1,
                context.time_signature == old_self.time_signature_view(),
                context.recent_chords@ == answered_history(self.requests@.skip(n0)),
            decreases if gen_beat < target {
                target - gen_beat
            } else {
                0
            },
        {
            context.current_beat = gen_beat;
            let prev_beat: u32 = if gen_beat > 0 {
                gen_beat - 1
            } else {
                0
            };
            let ghost before = self.events();
            let ghost log = self.requests@.skip(n0);
            let current_chord: Option<Chord> = match self.timeline.timeline().chord_at_beat(prev_beat) {
                Some(e) => Some(e.chord),
                None => None,
            };
            proof {
                lemma_first_active_bounds(before, prev_beat as int);
            }
            let generated = self.ask_source(current_chord, &context);
            let ghost request = ChordRequest {
                current_chord,
                key_selection: old_self.key_selection_view(),
                context: context,
                answer: generated,
            };
            self.place_generated(generated, gen_beat);
            if let Some(chord) = generated {
                context.add_chord(chord);
                proof {
                    let event = ChordEvent {
                        chord,
                        beat_position: gen_beat,
                        duration_beats: beats_per_chord,
                        key_center: old_self.current_key_view(),
                        accent: false,
                    };
                    lemma_insertion_index_bounds(before, gen_beat);
                    let i = insertion_index(before, gen_beat);
                    assert forall|e: ChordEvent| self.events().contains(e) <==> (before.contains(e) || e == event) by {
                        lemma_insert_contains(before, i, event, e);
                    }
                    assert(generation_beat(start, target as int, step, gen_beat as int));
                }
            }
            proof {
                let log2 = self.requests@.skip(n0);
                assert(log2 =~= log.push(request));
                assert(log2.drop_last() =~= log);
                assert(self.requests@.take(n0) =~= old_self.requests_view());
                assert(request_at(
                    log2,
                    old_self.events(),
                    start,
                    target as int,
                    beats_per_chord,
                    old_self.current_key_view(),
                    old_self.key_selection_view(),
                    old_self.time_signature_view(),
                    log.len() as int,
                )) by {
                    assert(log2.take(log.len() as int) =~= log);
                }
                assert forall|i: int| 0 <= i < log.len() implies #[trigger] request_at(
                    log2,
                    old_self.events(),
                    start,
                    target as int,
                    beats_per_chord,
                    old_self.current_key_view(),
                    old_self.key_selection_view(),
                    old_self.time_signature_view(),
                    i,
                ) by {
                    assert(log2.take(i) =~= log.take(i));
                    assert(log2[i] == log[i]);
                    assert(request_at(
                        log,
                        old_self.events(),
                        start,
                        target as int,
                        beats_per_chord,
                        old_self.current_key_view(),
                        old_self.key_selection_view(),
                        old_self.time_signature_view(),
                        i,
                    ));
                }
                assert((gen_beat + beats_per_chord - start) % step == 0) by (nonlinear_arith)
                    requires
                        (gen_beat - start) % step == 0,
                        step == beats_per_chord,
                        step > 0,
                ;
                assert(gen_beat + beats_per_chord == start + log2.len() * step) by (nonlinear_arith)
                    requires
                        gen_beat == start + log.len() * step,
                        log2.len() == log.len() + 1,
                        step == beats_per_chord,
                ;
            }
            gen_beat = gen_beat + beats_per_chord;
        }
        self.last_generation_beat = gen_beat;
    }

    /// An assistant, stopped, with `key_selection`, its primary key (C without
    /// one), `time_signature` and `timeline_config`, generating
    /// `generation_ahead_beats` beats ahead.
    pub fn new(
        generator: G,
        key_selection: KeySelection,
        time_signature: TimeSignature,
        timeline_config: TimelineConfig,
        generation_ahead_beats: u32,
    ) -> (r: Self)
        ensures
            r.wf(),
            r.events() == Seq::<ChordEvent>::empty(),
            r.timeline_view().current_beat_view() == 0,
            r.timeline_view().timeline_view().time_signature_view() == time_signature,
            r.timeline_view().timeline_view().auto_advance_view() == timeline_config.auto_advance,
            r.key_selection_view() == key_selection,
            r.current_key_view() == match key_selection.primary_key {
                Some(k) => k,
                None => Note::C,
            },
            !r.running_view(),
            r.ahead_view() == generation_ahead_beats,
            r.last_generation_view() == 0,
            r.time_signature_view() == time_signature,
            r.timeline_config_view() == timeline_config,
            r.requests_view() == Seq::<ChordRequest>::empty(),
    {
        let timeline = MovingTimeline::new(time_signature, &timeline_config);
        let current_key = match key_selection.primary_key {
            Some(k) => k,
            None => Note::C,
        };
        MelodyAssistantState {
            timeline,
            generator,
            music_theory: StandardMusicTheory::new(),
            key_selection,
            current_key,
            is_running: false,
            generation_ahead_beats,
            last_generation_beat: 0,
            time_signature,
            timeline_config,
            requests: Ghost(Seq::empty()),
        }
    }

    /// Start generating: from a cleared timeline at beat 0 (no effect while running).
    pub fn start(&mut self)
        requires
            old(self).wf(),
            !old(self).running_view() ==> old(self).can_generate_from(0),
        ensures
            final(self).wf(),
            final(self).running_view(),
            old(self).running_view() ==> final(self).events() == old(self).events()
                && final(self).last_generation_view() == old(self).last_generation_view()
                && final(self).same_settings(old(self))
                && final(self).requests_view() == old(self).requests_view(),
            !old(self).running_view() ==> final(self).generated_since(
                old(self),
                Seq::<ChordEvent>::empty(),
                0,
                old(self).ahead_view() as int,
            ),
            !old(self).running_view() ==> final(self).timeline_view().current_beat_view() == 0
                && extends_with_generated(
                Seq::<ChordEvent>::empty(),
                final(self).events(),
                0,
                old(self).ahead_view() as int,
                old(self).chord_length_view() as int,
                old(self).current_key_view(),
            ) && final(self).last_generation_view() == generation_end(
                0,
                old(self).ahead_view() as int,
                old(self).chord_length_view() as int,
            ),
            final(self).key_selection_view() == old(self).key_selection_view(),
            final(self).current_key_view() == old(self).current_key_view(),
            final(self).ahead_view() == old(self).ahead_view(),
            final(self).time_signature_view() == old(self).time_signature_view(),
            final(self).timeline_config_view() == old(self).timeline_config_view(),
    {
        if !self.is_running {
            self.is_running = true;
            self.generate_initial_progression();
        }
    }

    /// Stop generating and clear the timeline.
    pub fn stop(&mut self)
        ensures
            final(self).wf(),
            !final(self).running_view(),
            final(self).events() == Seq::<ChordEvent>::empty(),
            final(self).timeline_view().current_beat_view() == 0,
            final(self).last_generation_view() == 0,
            final(self).requests_view() == old(self).requests_view(),
            final(self).key_selection_view() == old(self).key_selection_view(),
            final(self).current_key_view() == old(self).current_key_view(),
            final(self).ahead_view() == old(self).ahead_view(),
            final(self).time_signature_view() == old(self).time_signature_view(),
            final(self).timeline_config_view() == old(self).timeline_config_view(),
    {
        self.is_running = false;
        self.timeline.clear();
        self.last_generation_beat = 0;
    }

    /// Clear the timeline and generate from beat 0.
    fn generate_initial_progression(&mut self)
        requires
            old(self).wf(),
            old(self).can_generate_from(0),
        ensures
            final(self).wf(),
            final(self).timeline_view().current_beat_view() == 0,
            extends_with_generated(
                Seq::<ChordEvent>::empty(),
                final(self).events(),
                0,
                old(self).ahead_view() as int,
                old(self).chord_length_view() as int,
                old(self).current_key_view(),
            ),
            final(self).last_generation_view() == generation_end(
                0,
                old(self).ahead_view() as int,
                old(self).chord_length_view() as int,
            ),
            final(self).generated_since(
                old(self),
                Seq::<ChordEvent>::empty(),
                0,
                old(self).ahead_view() as int,
            ),
            final(self).running_view() == old(self).running_view(),
            final(self).key_selection_view() == old(self).key_selection_view(),
            final(self).current_key_view() == old(self).current_key_view(),
            final(self).ahead_view() == old(self).ahead_view(),
            final(self).time_signature_view() == old(self).time_signature_view(),
            final(self).timeline_config_view() == old(self).timeline_config_view(),
    {
        self.timeline.clear();
        self.last_generation_beat = 0;
        self.generate_ahead(0);
    }

    /// Follow a metronome beat while running: move to the beat (dropping
    /// finished chords with auto-advance) and generate further when the
    /// generated chords do not reach `generation_ahead_beats` past it.
    pub fn update_with_beat(&mut self, beat_number: u8)
        requires
            old(self).wf(),
            old(self).running_view() ==> old(self).can_generate_from(beat_number as int),
        ensures
            final(self).wf(),
            !old(self).running_view() ==> final(self).events() == old(self).events()
                && final(self).last_generation_view() == old(self).last_generation_view()
                && final(self).same_settings(old(self))
                && final(self).requests_view() == old(self).requests_view(),
            old(self).running_view() ==> ({
                let moved = if old(self).timeline_view().timeline_view().auto_advance_view() {
                    old(self).events().skip(finished_prefix_len(old(self).events(), beat_number as int))
                } else {
                    old(self).events()
                };
                let target = beat_number + old(self).ahead_view();
                &&& final(self).timeline_view().current_beat_view() == beat_number
                &&& old(self).last_generation_view() < target ==> final(self).generated_since(
                    old(self),
                    moved,
                    old(self).generation_start(beat_number as int),
                    target,
                )
                &&& old(self).last_generation_view() >= target ==> final(self).requests_view()
                    == old(self).requests_view()
                &&& old(self).last_generation_view() < target ==> extends_with_generated(
                    moved,
                    final(self).events(),
                    old(self).generation_start(beat_number as int),
                    target,
                    old(self).chord_length_view() as int,
                    old(self).current_key_view(),
                ) && final(self).last_generation_view() == generation_end(
                    old(self).generation_start(beat_number as int),
                    target,
                    old(self).chord_length_view() as int,
                )
                &&& old(self).last_generation_view() >= target ==> final(self).events() == moved
                    && final(self).last_generation_view() == old(self).last_generation_view()
            }),
            final(self).running_view() == old(self).running_view(),
            final(self).key_selection_view() == old(self).key_selection_view(),
            final(self).current_key_view() == old(self).current_key_view(),
            final(self).ahead_view() == old(self).ahead_view(),
            final(self).time_signature_view() == old(self).time_signature_view(),
            final(self).timeline_config_view() == old(self).timeline_config_view(),
    {
        if !self.is_running {
            return;
        }
        self.timeline.update_with_beat(beat_number);
        let current_beat = beat_number as u32;
        if self.should_generate_more_chords(current_beat) {
            self.generate_ahead(current_beat);
        }
    }

    /// Whether the generated chords stop short of `generation_ahead_beats` past `current_beat`.
    fn should_generate_more_chords(&self, current_beat: u32) -> (r: bool)
        requires
            current_beat + self.ahead_view() <= u32::MAX,
        ensures
            r == (self.last_generation_view() < current_beat + self.ahead_view()),
    {
        let target_beat = current_beat + self.generation_ahead_beats;
        self.last_generation_beat < target_beat
    }

    /// Take a new key selection; when its primary key differs from the current
    /// key, that becomes the current key and, while running, the progression is
    /// generated anew (with the previous selection) in it.
    pub fn update_key_selection(&mut self, key_selection: KeySelection)
        requires
            old(self).wf(),
            old(self).running_view() ==> old(self).can_generate_from(0),
        ensures
            final(self).wf(),
            final(self).key_selection_view() == key_selection,
            ({
                let changed = key_selection.primary_key matches Some(k) && k != old(self).current_key_view();
                &&& changed ==> final(self).current_key_view() == key_selection.primary_key->0
                &&& !changed ==> final(self).current_key_view() == old(self).current_key_view()
                &&& changed && old(self).running_view() ==> final(self).generated_since(
                    old(self),
                    Seq::<ChordEvent>::empty(),
                    0,
                    old(self).ahead_view() as int,
                )
                &&& changed && old(self).running_view() ==> final(self).timeline_view().current_beat_view() == 0
                    && extends_with_generated(
                    Seq::<ChordEvent>::empty(),
                    final(self).events(),
                    0,
                    old(self).ahead_view() as int,
                    old(self).chord_length_view() as int,
                    key_selection.primary_key->0,
                ) && final(self).last_generation_view() == generation_end(
                    0,
                    old(self).ahead_view() as int,
                    old(self).chord_length_view() as int,
                )
                &&& !(changed && old(self).running_view()) ==> final(self).events() == old(self).events()
                    && final(self).last_generation_view() == old(self).last_generation_view()
                    && final(self).requests_view() == old(self).requests_view()
                    && final(self).timeline_view().current_beat_view() == old(self).timeline_view().current_beat_view()
            }),
            final(self).running_view() == old(self).running_view(),
            final(self).ahead_view() == old(self).ahead_view(),
            final(self).time_signature_view() == old(self).time_signature_view(),
            final(self).timeline_config_view() == old(self).timeline_config_view(),
    {
        if let Some(primary_key) = key_selection.primary_key {
            if primary_key != self.current_key {
                self.current_key = primary_key;
                if self.is_running {
                    self.generate_initial_progression();
                }
            }
        }
        self.key_selection = key_selection;
    }

    /// Set the time signature of the generated chords and of the timeline.
    pub fn update_time_signature(&mut self, time_signature: TimeSignature)
        requires
            old(self).wf(),
        ensures
            final(self).wf(),
            final(self).time_signature_view() == time_signature,
            final(self).timeline_view().timeline_view().time_signature_view() == time_signature,
            final(self).events() == old(self).events(),
            final(self).timeline_view().current_beat_view() == old(self).timeline_view().current_beat_view(),
            final(self).last_generation_view() == old(self).last_generation_view(),
            final(self).running_view() == old(self).running_view(),
            final(self).key_selection_view() == old(self).key_selection_view(),
            final(self).current_key_view() == old(self).current_key_view(),
            final(self).ahead_view() == old(self).ahead_view(),
            final(self).timeline_config_view() == old(self).timeline_config_view(),
            final(self).requests_view() == old(self).requests_view(),
    {
        self.time_signature = time_signature;
        self.timeline.update_time_signature(time_signature);
    }

    /// Set the timeline configuration (chord length, lookahead, auto-advance).
    pub fn update_timeline_config(&mut self, timeline_config: TimelineConfig)
        requires
            old(self).wf(),
        ensures
            final(self).wf(),
            final(self).timeline_config_view() == timeline_config,
            final(self).timeline_view().timeline_view().auto_advance_view() == timeline_config.auto_advance,
            final(self).timeline_view().measures_ahead_view() == timeline_config.measures_ahead,
            final(self).events() == old(self).events(),
            final(self).timeline_view().current_beat_view() == old(self).timeline_view().current_beat_view(),
            final(self).last_generation_view() == old(self).last_generation_view(),
            final(self).running_view() == old(self).running_view(),
            final(self).key_selection_view() == old(self).key_selection_view(),
            final(self).current_key_view() == old(self).current_key_view(),
            final(self).ahead_view() == old(self).ahead_view(),
            final(self).time_signature_view() == old(self).time_signature_view(),
            final(self).requests_view() == old(self).requests_view(),
    {
        self.timeline.update_config(&timeline_config);
        self.timeline_config = timeline_config;
    }

    /// What the timeline display shows now.
    pub fn get_timeline_display(&self) -> (r: TimelineDisplayData)
        requires
            self.wf(),
        ensures
            r == self.timeline_view().display_view(),
    {
        self.timeline.get_display_data()
    }

    /// The current key selection.
    pub fn get_key_selection(&self) -> (r: &KeySelection)
        ensures
            *r == self.key_selection_view(),
    {
        &self.key_selection
    }

    /// The current primary key.
    pub fn get_current_key(&self) -> (r: Note)
        ensures
            r == self.current_key_view(),
    {
        self.current_key
    }

    /// Whether the assistant is generating.
    pub fn is_running(&self) -> (r: bool)
        ensures
            r == self.running_view(),
    {
        self.is_running
    }

    /// Regenerate the upcoming progression while running: drop the finished
    /// chords (with auto-advance) and those that have not started by the
    /// current beat, then generate from where the chord sounding now ends (or
    /// from the current beat) up to `generation_ahead_beats` past it.
    pub fn regenerate_progression(&mut self)
        requires
            old(self).wf(),
            old(self).running_view() ==> old(self).can_generate_from(
                old(self).timeline_view().current_beat_view() as int,
            ),
        ensures
            final(self).wf(),
            !old(self).running_view() ==> final(self).events() == old(self).events()
                && final(self).last_generation_view() == old(self).last_generation_view()
                && final(self).requests_view() == old(self).requests_view(),
            old(self).running_view() ==> ({
                let beat = old(self).timeline_view().current_beat_view();
                let moved = if old(self).timeline_view().timeline_view().auto_advance_view() {
                    old(self).events().skip(finished_prefix_len(old(self).events(), beat as int))
                } else {
                    old(self).events()
                };
                let kept = moved.take(insertion_index(moved, beat));
                let target = beat + old(self).ahead_view();
                let start = resume_beat(kept, beat as int, target);
                &&& extends_with_generated(
                    kept,
                    final(self).events(),
                    start,
                    target,
                    old(self).chord_length_view() as int,
                    old(self).current_key_view(),
                )
                &&& final(self).last_generation_view() == generation_end(
                    start,
                    target,
                    old(self).chord_length_view() as int,
                )
                &&& final(self).generated_since(old(self), kept, start, target)
            }),
            final(self).same_settings(old(self)),
    {
        if self.is_running {
            let current_beat = self.timeline.current_beat();
            self.timeline.timeline_mut().update(current_beat);
            self.timeline.timeline_mut().drop_upcoming(current_beat);
            let target = current_beat + self.generation_ahead_beats;
            let count = self.timeline.timeline().event_count();
            let mut resume = current_beat;
            if count > 0 {
                let last = &self.timeline.timeline().all_events()[count - 1];
                let end: u64 = last.beat_position as u64 + last.duration_beats as u64;
                if end > current_beat as u64 {
                    resume = if end < target as u64 {
                        end as u32
                    } else {
                        target
                    };
                }
            }
            self.last_generation_beat = resume;
            self.generate_ahead(current_beat);
        }
    }

    /// Move the timeline to `beat` (dropping finished chords with
    /// auto-advance) and, while running, generate from there.
    pub fn jump_to_beat(&mut self, beat: u32)
        requires
            old(self).wf(),
            old(self).running_view() ==> old(self).can_generate_from(beat as int),
        ensures
            final(self).wf(),
            final(self).timeline_view().current_beat_view() == beat,
            ({
                let moved = if old(self).timeline_view().timeline_view().auto_advance_view() {
                    old(self).events().skip(finished_prefix_len(old(self).events(), beat as int))
                } else {
                    old(self).events()
                };
                &&& !old(self).running_view() ==> final(self).events() == moved
                    && final(self).last_generation_view() == beat
                    && final(self).requests_view() == old(self).requests_view()
                &&& old(self).running_view() ==> final(self).generated_since(
                    old(self),
                    moved,
                    beat as int,
                    beat + old(self).ahead_view(),
                )
                &&& old(self).running_view() ==> extends_with_generated(
                    moved,
                    final(self).events(),
                    beat as int,
                    beat + old(self).ahead_view(),
                    old(self).chord_length_view() as int,
                    old(self).current_key_view(),
                ) && final(self).last_generation_view() == generation_end(
                    beat as int,
                    beat + old(self).ahead_view(),
                    old(self).chord_length_view() as int,
                )
            }),
            final(self).running_view() == old(self).running_view(),
            final(self).key_selection_view() == old(self).key_selection_view(),
            final(self).current_key_view() == old(self).current_key_view(),
            final(self).ahead_view() == old(self).ahead_view(),
            final(self).time_signature_view() == old(self).time_signature_view(),
            final(self).timeline_config_view() == old(self).timeline_config_view(),
    {
        self.timeline.jump_to_beat(beat);
        self.last_generation_beat = beat;
        if self.is_running {
            self.generate_ahead(beat);
        }
    }

    /// How many beats ahead chords are generated.
    pub fn generation_ahead_beats(&self) -> (r: u32)
        ensures
            r == self.ahead_view(),
    {
        self.generation_ahead_beats
    }

    /// The timeline configuration (chord length, lookahead, auto-advance).
    pub fn timeline_config(&self) -> (r: &TimelineConfig)
        ensures
            *r == self.timeline_config_view(),
    {
        &self.timeline_config
    }

    /// The time signature chords are generated in.
    pub fn time_signature(&self) -> (r: TimeSignature)
        ensures
            r == self.time_signature_view(),
    {
        self.time_signature
    }

    /// The current beat of the timeline.
    pub fn current_beat(&self) -> (r: u32)
        ensures
            r == self.timeline_view().current_beat_view(),
    {
        self.timeline.current_beat()
    }

    /// The music theory engine.
    pub fn music_theory(&self) -> (r: &StandardMusicTheory) {
        &self.music_theory
    }

    /// Set how many beats ahead chords are generated.
    pub fn set_generation_ahead_beats(&mut self, beats: u32)
        ensures
            final(self).ahead_view() == beats,
            final(self).events() == old(self).events(),
            final(self).timeline_view() == old(self).timeline_view(),
            final(self).last_generation_view() == old(self).last_generation_view(),
            final(self).running_view() == old(self).running_view(),
            final(self).key_selection_view() == old(self).key_selection_view(),
            final(self).current_key_view() == old(self).current_key_view(),
            final(self).time_signature_view() == old(self).time_signature_view(),
            final(self).timeline_config_view() == old(self).timeline_config_view(),
            final(self).requests_view() == old(self).requests_view(),
    {
        self.generation_ahead_beats = beats;
    }
}

} // verus!
