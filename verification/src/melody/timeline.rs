//! Chord timelines synchronized to the beat: `ChordTimeline` keeps chord events
//! in beat order, `MovingTimeline` presents the current, next and following chords.

use vstd::prelude::*;
use std::collections::VecDeque;
use super::types::{Chord, ChordEvent, Note, TimelineConfig};
use crate::timing::types::TimeSignature;

verus! {

/// Events are ordered by non-decreasing start beat.
pub open spec fn events_sorted(s: Seq<ChordEvent>) -> bool {
    forall|i: int, j: int| 0 <= i <= j < s.len() ==> s[i].beat_position <= s[j].beat_position
}

/// Index at which an event starting at `beat` is inserted: before the first
/// event that starts strictly later, or at the end.
pub open spec fn insertion_index(s: Seq<ChordEvent>, beat: u32) -> int
    decreases s.len(),
{
    if s.len() == 0 {
        0
    } else if s[0].beat_position > beat {
        0
    } else {
        1 + insertion_index(s.drop_first(), beat)
    }
}

/// Number of leading events that have finished by `beat`.
pub open spec fn finished_prefix_len(s: Seq<ChordEvent>, beat: int) -> int
    decreases s.len(),
{
    if s.len() == 0 {
        0
    } else if s[0].end() <= beat {
        1 + finished_prefix_len(s.drop_first(), beat)
    } else {
        0
    }
}

/// Index of the first event sounding at `beat`, or the length when none does.
pub open spec fn first_active_index(s: Seq<ChordEvent>, beat: int) -> int
    decreases s.len(),
{
    if s.len() == 0 {
        0
    } else if s[0].active_at(beat) {
        0
    } else {
        1 + first_active_index(s.drop_first(), beat)
    }
}

/// Events that start in the window `[from, end)`.
pub open spec fn starts_within(from: int, end: int) -> spec_fn(ChordEvent) -> bool {
    |e: ChordEvent| from <= e.beat_position && e.beat_position < end
}

/// Beat at which a chord appended after `s` starts: the end of the last event, or 0.
pub open spec fn next_free_beat(s: Seq<ChordEvent>) -> int {
    if s.len() == 0 {
        0
    } else {
        s.last().end()
    }
}

pub(crate) proof fn lemma_insertion_index_bounds(s: Seq<ChordEvent>, beat: u32)
    ensures
        0 <= insertion_index(s, beat) <= s.len(),
        forall|k: int| 0 <= k < insertion_index(s, beat) ==> s[k].beat_position <= beat,
        insertion_index(s, beat) < s.len() ==> s[insertion_index(s, beat)].beat_position > beat,
    decreases s.len(),
{
    if s.len() > 0 && s[0].beat_position <= beat {
        lemma_insertion_index_bounds(s.drop_first(), beat);
        assert forall|k: int| 0 <= k < insertion_index(s, beat) implies s[k].beat_position
            <= beat by {
            if k > 0 {
                assert(s[k] == s.drop_first()[k - 1]);
            }
        }
    }
}

proof fn lemma_insertion_index_step(s: Seq<ChordEvent>, beat: u32, i: int)
    requires
        0 <= i < s.len(),
        s[i].beat_position <= beat,
    ensures
        insertion_index(s.skip(i), beat) == 1 + insertion_index(s.skip(i + 1), beat),
{
    assert(s.skip(i).drop_first() =~= s.skip(i + 1));
}

proof fn lemma_insert_keeps_sorted(s: Seq<ChordEvent>, e: ChordEvent)
    requires
        events_sorted(s),
    ensures
        events_sorted(s.insert(insertion_index(s, e.beat_position), e)),
{
    lemma_insertion_index_bounds(s, e.beat_position);
    let p = insertion_index(s, e.beat_position);
    let t = s.insert(p, e);
    assert forall|i: int, j: int| 0 <= i <= j < t.len() implies t[i].beat_position
        <= t[j].beat_position by {
        if i < p && j < p {
        } else if i < p && j == p {
        } else if i < p {
            assert(t[j] == s[j - 1]);
        } else if i == p && j == p {
        } else if i == p {
            assert(t[j] == s[j - 1]);
            assert(s[p].beat_position > e.beat_position);
        } else {
            assert(t[i] == s[i - 1]);
            assert(t[j] == s[j - 1]);
        }
    }
}

/// Appending at the next free beat places the new event last when events are sorted.
proof fn lemma_append_index(s: Seq<ChordEvent>, beat: u32)
    requires
        events_sorted(s),
        s.len() > 0 ==> s.last().beat_position <= beat,
    ensures
        insertion_index(s, beat) == s.len(),
    decreases s.len(),
{
    if s.len() > 0 {
        assert(s[0].beat_position <= s.last().beat_position);
        let t = s.drop_first();
        assert forall|i: int, j: int| 0 <= i <= j < t.len() implies t[i].beat_position
            <= t[j].beat_position by {
            assert(t[i] == s[i + 1] && t[j] == s[j + 1]);
        }
        if t.len() > 0 {
            assert(t.last() == s.last());
        }
        lemma_append_index(t, beat);
    }
}

proof fn lemma_finished_step(s: Seq<ChordEvent>, beat: int)
    requires
        s.len() > 0,
        s[0].end() <= beat,
    ensures
        finished_prefix_len(s, beat) == 1 + finished_prefix_len(s.drop_first(), beat),
{
}

proof fn lemma_finished_bounds(s: Seq<ChordEvent>, beat: int)
    ensures
        0 <= finished_prefix_len(s, beat) <= s.len(),
    decreases s.len(),
{
    if s.len() > 0 && s[0].end() <= beat {
        lemma_finished_bounds(s.drop_first(), beat);
    }
}

proof fn lemma_skip_sorted(s: Seq<ChordEvent>, k: int)
    requires
        events_sorted(s),
        0 <= k <= s.len(),
    ensures
        events_sorted(s.skip(k)),
{
    let t = s.skip(k);
    assert forall|i: int, j: int| 0 <= i <= j < t.len() implies t[i].beat_position
        <= t[j].beat_position by {
        assert(t[i] == s[i + k] && t[j] == s[j + k]);
    }
}

pub(crate) proof fn lemma_first_active_bounds(s: Seq<ChordEvent>, beat: int)
    ensures
        0 <= first_active_index(s, beat) <= s.len(),
        first_active_index(s, beat) < s.len() ==> s[first_active_index(s, beat)].active_at(beat),
        forall|k: int| 0 <= k < first_active_index(s, beat) ==> !s[k].active_at(beat),
    decreases s.len(),
{
    if s.len() > 0 && !s[0].active_at(beat) {
        lemma_first_active_bounds(s.drop_first(), beat);
        assert forall|k: int| 0 <= k < first_active_index(s, beat) implies !s[k].active_at(
            beat,
        ) by {
            if k > 0 {
                assert(s[k] == s.drop_first()[k - 1]);
            }
        }
    }
}

proof fn lemma_filter_take_step(s: Seq<ChordEvent>, p: spec_fn(ChordEvent) -> bool, i: int)
    requires
        0 <= i < s.len(),
    ensures
        s.take(i + 1).filter(p) == if p(s[i]) {
            s.take(i).filter(p).push(s[i])
        } else {
            s.take(i).filter(p)
        },
{
    reveal(Seq::filter);
    assert(s.take(i + 1).drop_last() =~= s.take(i));
    assert(s.take(i + 1).last() == s[i]);
}

/// Timeline display data for user interfaces.
#[derive(Debug, Clone)]
pub struct TimelineDisplayData {
    pub current_chord: Option<ChordEvent>,
    pub next_chord: Option<ChordEvent>,
    pub following_chord: Option<ChordEvent>,
    pub current_key_center: Note,
    pub next_key_center: Option<Note>,
    pub current_beat: u32,
    pub measures_ahead: u8,
}

impl TimelineDisplayData {
    /// The chords present in the display, current first.
    pub open spec fn visible_seq(self) -> Seq<ChordEvent> {
        let a = if self.current_chord is Some {
            seq![self.current_chord->0]
        } else {
            Seq::empty()
        };
        let b = if self.next_chord is Some {
            seq![self.next_chord->0]
        } else {
            Seq::empty()
        };
        let c = if self.following_chord is Some {
            seq![self.following_chord->0]
        } else {
            Seq::empty()
        };
        a + b + c
    }

    /// An empty display: no chords, key center C, beat 0, two measures ahead.
    pub fn empty() -> (r: Self)
        ensures
            r.current_chord is None,
            r.next_chord is None,
            r.following_chord is None,
            r.current_key_center == Note::C,
            r.next_key_center is None,
            r.current_beat == 0,
            r.measures_ahead == 2,
    {
        Self {
            current_chord: None,
            next_chord: None,
            following_chord: None,
            current_key_center: Note::C,
            next_key_center: None,
            current_beat: 0,
            measures_ahead: 2,
        }
    }

    /// Whether a current or a next chord is shown.
    pub fn has_content(&self) -> (r: bool)
        ensures
            r == (self.current_chord is Some || self.next_chord is Some),
    {
        self.current_chord.is_some() || self.next_chord.is_some()
    }

    /// All visible chord events: current, next and following, those present.
    pub fn visible_chords(&self) -> (r: Vec<&ChordEvent>)
        ensures
            r@.len() == self.visible_seq().len(),
            forall|i: int| 0 <= i < r@.len() ==> *(#[trigger] r@[i]) == self.visible_seq()[i],
    {
        let mut chords: Vec<&ChordEvent> = Vec::new();
        if let Some(ref chord) = self.current_chord {
            chords.push(chord);
        }
        if let Some(ref chord) = self.next_chord {
            chords.push(chord);
        }
        if let Some(ref chord) = self.following_chord {
            chords.push(chord);
        }
        chords
    }
}

/// Chord events over time, kept in beat order.
pub struct ChordTimeline {
    events: VecDeque<ChordEvent>,
    time_signature: TimeSignature,
    beats_per_chord: u32,
    auto_advance: bool,
}

impl ChordTimeline {
    /// The scheduled events, in order.
    pub closed spec fn events_view(&self) -> Seq<ChordEvent> {
        self.events@
    }

    /// The time signature used for lookahead windows.
    pub closed spec fn time_signature_view(&self) -> TimeSignature {
        self.time_signature
    }

    /// The duration given to chords appended at the next free beat.
    pub closed spec fn beats_per_chord_view(&self) -> u32 {
        self.beats_per_chord
    }

    /// Whether finished events are dropped on update.
    pub closed spec fn auto_advance_view(&self) -> bool {
        self.auto_advance
    }

    /// Well-formedness: the events are in beat order.
    pub open spec fn wf(&self) -> bool {
        events_sorted(self.events_view())
    }

    /// Create an empty timeline.
    pub fn new(time_signature: TimeSignature, config: &TimelineConfig) -> (r: Self)
        ensures
            r.wf(),
            r.events_view() == Seq::<ChordEvent>::empty(),
            r.time_signature_view() == time_signature,
            r.beats_per_chord_view() == config.beats_per_chord as u32,
            r.auto_advance_view() == config.auto_advance,
    {
        Self {
            events: VecDeque::new(),
            time_signature,
            beats_per_chord: config.beats_per_chord as u32,
            auto_advance: config.auto_advance,
        }
    }

    /// Insert an event after all events that start at or before it.
    pub fn add_chord_event(&mut self, event: ChordEvent)
        requires
            old(self).wf(),
        ensures
            final(self).wf(),
            final(self).events_view() == old(self).events_view().insert(
                insertion_index(old(self).events_view(), event.beat_position),
                event,
            ),
            final(self).time_signature_view() == old(self).time_signature_view(),
            final(self).beats_per_chord_view() == old(self).beats_per_chord_view(),
            final(self).auto_advance_view() == old(self).auto_advance_view(),
    {
        let ghost s = self.events@;
        proof {
            lemma_insertion_index_bounds(s, event.beat_position);
            lemma_insert_keeps_sorted(s, event);
        }
        let len = self.events.len();
        let mut insert_pos: usize = 0;
        assert(s.skip(0) =~= s);
        while insert_pos < len && self.events[insert_pos].beat_position <= event.beat_position
            invariant
                len == self.events@.len(),
                self.events@ == s,
                insert_pos <= len,
                insertion_index(s, event.beat_position) == insert_pos + insertion_index(
                    s.skip(insert_pos as int),
                    event.beat_position,
                ),
            decreases len - insert_pos,
        {
            proof {
                lemma_insertion_index_step(s, event.beat_position, insert_pos as int);
            }
            insert_pos = insert_pos + 1;
        }
        proof {
            if insert_pos < len {
                assert(s.skip(insert_pos as int)[0] == s[insert_pos as int]);
            }
        }
        self.events.insert(insert_pos, event);
    }

    /// Append a chord at the next free beat, lasting `beats_per_chord` beats.
    pub fn add_chord_at_next_beat(&mut self, chord: Chord, key_center: Note)
        requires
            old(self).wf(),
            next_free_beat(old(self).events_view()) <= u32::MAX,
        ensures
            final(self).wf(),
            final(self).events_view() == old(self).events_view().push(
                ChordEvent {
                    chord,
                    beat_position: next_free_beat(old(self).events_view()) as u32,
                    duration_beats: old(self).beats_per_chord_view(),
                    key_center,
                    accent: false,
                },
            ),
            final(self).time_signature_view() == old(self).time_signature_view(),
            final(self).beats_per_chord_view() == old(self).beats_per_chord_view(),
            final(self).auto_advance_view() == old(self).auto_advance_view(),
    {
        let next_beat = self.get_next_available_beat();
        let event = ChordEvent::new(chord, next_beat, self.beats_per_chord, key_center);
        proof {
            let s = self.events@;
            if s.len() > 0 {
                assert(s.last().beat_position <= next_beat);
            }
            lemma_append_index(s, next_beat);
            assert(s.insert(s.len() as int, event) =~= s.push(event));
        }
        self.add_chord_event(event);
    }

    /// Beat position after the last event, or 0 for an empty timeline.
    fn get_next_available_beat(&self) -> (r: u32)
        requires
            next_free_beat(self.events_view()) <= u32::MAX,
        ensures
            r == next_free_beat(self.events_view()),
    {
        let len = self.events.len();
        if len == 0 {
            0
        } else {
            self.events[len - 1].end_beat()
        }
    }

    /// Drop the events that have finished by `current_beat` (when auto-advance is on).
    pub fn update(&mut self, current_beat: u32)
        requires
            old(self).wf(),
        ensures
            final(self).wf(),
            old(self).auto_advance_view() ==> final(self).events_view() == old(self).events_view().skip(finished_prefix_len(old(self).events_view(), current_beat as int)),
            !old(self).auto_advance_view() ==> final(self).events_view() == old(self).events_view(),
            final(self).time_signature_view() == old(self).time_signature_view(),
            final(self).beats_per_chord_view() == old(self).beats_per_chord_view(),
            final(self).auto_advance_view() == old(self).auto_advance_view(),
    {
        if self.auto_advance {
            let ghost s = self.events@;
            let ghost target = finished_prefix_len(s, current_beat as int);
            let ghost mut k: int = 0;
            proof {
                lemma_finished_bounds(s, current_beat as int);
                assert(s.skip(0) =~= s);
            }
            while self.events.len() > 0 && (self.events[0].beat_position as u64
                + self.events[0].duration_beats as u64) <= current_beat as u64
                invariant
                    0 <= k <= s.len(),
                    self.events@ == s.skip(k),
                    target == k + finished_prefix_len(s.skip(k), current_beat as int),
                    self.time_signature == old(self).time_signature,
                    self.beats_per_chord == old(self).beats_per_chord,
                    self.auto_advance == old(self).auto_advance,
                decreases self.events@.len(),
            {
                proof {
                    lemma_finished_step(s.skip(k), current_beat as int);
                    assert(s.skip(k).drop_first() =~= s.skip(k + 1));
                }
                self.events.pop_front();
                proof {
                    k = k + 1;
                }
            }
            proof {
                lemma_skip_sorted(s, k);
            }
        }
    }

    /// The first event sounding at `beat`, if any.
    pub fn chord_at_beat(&self, beat: u32) -> (r: Option<&ChordEvent>)
        ensures
            first_active_index(self.events_view(), beat as int) < self.events_view().len() ==> (r
                matches Some(e) && *e == self.events_view()[first_active_index(
                self.events_view(),
                beat as int,
            )]),
            first_active_index(self.events_view(), beat as int) == self.events_view().len() ==> r
                is None,
    {
        let ghost s = self.events@;
        proof {
            lemma_first_active_bounds(s, beat as int);
        }
        let len = self.events.len();
        let mut i: usize = 0;
        assert(s.skip(0) =~= s);
        while i < len
            invariant
                len == s.len(),
                self.events@ == s,
                i <= len,
                first_active_index(s, beat as int) == i + first_active_index(
                    s.skip(i as int),
                    beat as int,
                ),
            decreases len - i,
        {
            if self.events[i].is_active_at_beat(beat) {
                assert(s.skip(i as int)[0] == s[i as int]);
                return Some(&self.events[i]);
            }
            proof {
                assert(s.skip(i as int).drop_first() =~= s.skip(i + 1));
            }
            i = i + 1;
        }
        None
    }

    /// Events starting within `measures_ahead` measures from `from_beat`, in order.
    pub fn upcoming_events(&self, from_beat: u32, measures_ahead: u8) -> (r: Vec<&ChordEvent>)
        ensures
            r@.len() == self.upcoming_seq(from_beat as int, measures_ahead as int).len(),
            forall|i: int|
                0 <= i < r@.len() ==> *(#[trigger] r@[i]) == self.upcoming_seq(
                    from_beat as int,
                    measures_ahead as int,
                )[i],
    {
        let beats_per_measure = self.time_signature.beats_per_measure as u64;
        assert(measures_ahead as u64 * beats_per_measure <= 255 * 255) by (nonlinear_arith)
            requires
                measures_ahead <= 255,
                beats_per_measure <= 255,
        ;
        let lookahead_beats: u64 = measures_ahead as u64 * beats_per_measure;
        let end_beat: u64 = from_beat as u64 + lookahead_beats;
        let ghost s = self.events@;
        let ghost p = starts_within(from_beat as int, end_beat as int);
        let len = self.events.len();
        let mut result: Vec<&ChordEvent> = Vec::new();
        let mut i: usize = 0;
        while i < len
            invariant
                len == s.len(),
                self.events@ == s,
                i <= len,
                p == starts_within(from_beat as int, end_beat as int),
                result@.len() == s.take(i as int).filter(p).len(),
                forall|k: int|
                    0 <= k < result@.len() ==> *(#[trigger] result@[k]) == s.take(i as int).filter(
                        p,
                    )[k],
            decreases len - i,
        {
            proof {
                lemma_filter_take_step(s, p, i as int);
            }
            let event = &self.events[i];
            if event.beat_position >= from_beat && (event.beat_position as u64) < end_beat {
                result.push(event);
            }
            i = i + 1;
        }
        assert(s.take(len as int) =~= s);
        result
    }

    /// The events starting in the lookahead window of `measures_ahead` measures from `from`.
    pub open spec fn upcoming_seq(&self, from: int, measures_ahead: int) -> Seq<ChordEvent> {
        self.events_view().filter(
            starts_within(
                from,
                from + measures_ahead * self.time_signature_view().beats_per_measure,
            ),
        )
    }

    /// Drop the events that start after `beat`, the ones that have not begun
    /// to sound; those starting at or before `beat` stay.
    pub fn drop_upcoming(&mut self, beat: u32)
        requires
            old(self).wf(),
        ensures
            final(self).wf(),
            final(self).events_view() == old(self).events_view().take(
                insertion_index(old(self).events_view(), beat),
            ),
            final(self).time_signature_view() == old(self).time_signature_view(),
            final(self).beats_per_chord_view() == old(self).beats_per_chord_view(),
            final(self).auto_advance_view() == old(self).auto_advance_view(),
    {
        let ghost s = self.events@;
        let ghost idx = insertion_index(s, beat);
        proof {
            lemma_insertion_index_bounds(s, beat);
            assert(s.take(s.len() as int) =~= s);
        }
        while self.events.len() > 0 && self.events[self.events.len() - 1].beat_position > beat
            invariant
                events_sorted(s),
                idx == insertion_index(s, beat),
                0 <= idx <= self.events@.len() <= s.len(),
                self.events@ == s.take(self.events@.len() as int),
                forall|k: int| 0 <= k < idx ==> s[k].beat_position <= beat,
                idx < s.len() ==> s[idx].beat_position > beat,
                self.time_signature == old(self).time_signature,
                self.beats_per_chord == old(self).beats_per_chord,
                self.auto_advance == old(self).auto_advance,
            decreases self.events@.len(),
        {
            let ghost n = self.events@.len() as int;
            proof {
                assert(self.events@[n - 1] == s[n - 1]);
            }
            self.events.pop_back();
            proof {
                assert(s.take(n).subrange(0, n - 1) =~= s.take(n - 1));
            }
        }
        proof {
            let n = self.events@.len() as int;
            if n > idx {
                assert(self.events@[n - 1] == s[n - 1]);
                assert(s[idx].beat_position <= s[n - 1].beat_position);
            }
            assert forall|i: int, j: int| 0 <= i <= j < self.events@.len() implies
                self.events@[i].beat_position <= self.events@[j].beat_position by {
                assert(self.events@[i] == s[i]);
                assert(self.events@[j] == s[j]);
            }
        }
    }

    /// Remove all events.
    pub fn clear(&mut self)
        ensures
            final(self).wf(),
            final(self).events_view() == Seq::<ChordEvent>::empty(),
            final(self).time_signature_view() == old(self).time_signature_view(),
            final(self).beats_per_chord_view() == old(self).beats_per_chord_view(),
            final(self).auto_advance_view() == old(self).auto_advance_view(),
    {
        self.events.clear();
    }

    /// Total number of events.
    pub fn event_count(&self) -> (r: usize)
        ensures
            r == self.events_view().len(),
    {
        self.events.len()
    }

    /// Whether the timeline has no events.
    pub fn is_empty(&self) -> (r: bool)
        ensures
            r == (self.events_view().len() == 0),
    {
        self.events.len() == 0
    }

    /// All events, in order.
    pub fn all_events(&self) -> (r: &VecDeque<ChordEvent>)
        ensures
            r@ == self.events_view(),
    {
        &self.events
    }

    /// Take the chord duration and auto-advance flag from `config`.
    pub fn update_config(&mut self, config: &TimelineConfig)
        ensures
            final(self).events_view() == old(self).events_view(),
            final(self).time_signature_view() == old(self).time_signature_view(),
            final(self).beats_per_chord_view() == config.beats_per_chord as u32,
            final(self).auto_advance_view() == config.auto_advance,
    {
        self.beats_per_chord = config.beats_per_chord as u32;
        self.auto_advance = config.auto_advance;
    }

    /// Replace the time signature.
    pub fn update_time_signature(&mut self, time_signature: TimeSignature)
        ensures
            final(self).events_view() == old(self).events_view(),
            final(self).time_signature_view() == time_signature,
            final(self).beats_per_chord_view() == old(self).beats_per_chord_view(),
            final(self).auto_advance_view() == old(self).auto_advance_view(),
    {
        self.time_signature = time_signature;
    }
}


/// Filtering keeps beat order.
pub proof fn lemma_filter_keeps_sorted(s: Seq<ChordEvent>, p: spec_fn(ChordEvent) -> bool)
    requires
        events_sorted(s),
    ensures
        events_sorted(s.filter(p)),
    decreases s.len(),
{
    reveal(Seq::filter);
    if s.len() > 0 {
        let rest = s.drop_last();
        assert forall|i: int, j: int| 0 <= i <= j < rest.len() implies rest[i].beat_position
            <= rest[j].beat_position by {
            assert(rest[i] == s[i] && rest[j] == s[j]);
        }
        lemma_filter_keeps_sorted(rest, p);
        let f = rest.filter(p);
        if p(s.last()) {
            let g = f.push(s.last());
            assert forall|i: int, j: int| 0 <= i <= j < g.len() implies g[i].beat_position
                <= g[j].beat_position by {
                if j == g.len() - 1 && i < j {
                    assert(f.contains(f[i]));
                    rest.lemma_filter_contains_rev(p, f[i]);
                    let k = choose|k: int| 0 <= k < rest.len() && rest[k] == f[i];
                    assert(rest[k] == s[k]);
                }
            }
        }
    }
}

/// Events that start strictly after `beat`.
pub open spec fn starts_after(beat: int) -> spec_fn(ChordEvent) -> bool {
    |e: ChordEvent| e.beat_position > beat
}

/// The events appended by a chord progression: one per (chord, key center)
/// pair, back to back from `start`, each lasting `beats_per_chord` beats.
pub open spec fn progression_events(
    chords: Seq<Chord>,
    keys: Seq<Note>,
    start: int,
    beats_per_chord: int,
) -> Seq<ChordEvent> {
    let n = if chords.len() <= keys.len() {
        chords.len()
    } else {
        keys.len()
    };
    Seq::new(
        n,
        |k: int|
            ChordEvent {
                chord: chords[k],
                beat_position: (start + k * beats_per_chord) as u32,
                duration_beats: beats_per_chord as u32,
                key_center: keys[k],
                accent: false,
            },
    )
}

/// Window timeline presenting the current, next and following chords.
pub struct MovingTimeline {
    timeline: ChordTimeline,
    current_beat: u32,
    measures_ahead: u8,
}

impl MovingTimeline {
    /// The underlying chord timeline.
    pub closed spec fn timeline_view(&self) -> ChordTimeline {
        self.timeline
    }

    /// The beat the display is positioned at.
    pub closed spec fn current_beat_view(&self) -> u32 {
        self.current_beat
    }

    /// How many measures ahead the display looks.
    pub closed spec fn measures_ahead_view(&self) -> u8 {
        self.measures_ahead
    }

    /// Well-formedness: the underlying timeline keeps its events in beat order.
    pub open spec fn wf(&self) -> bool {
        self.timeline_view().wf()
    }

    /// The upcoming events after the current beat, within the lookahead window.
    pub open spec fn future_seq(&self) -> Seq<ChordEvent> {
        self.timeline_view().upcoming_seq(
            self.current_beat_view() as int,
            self.measures_ahead_view() as int,
        ).filter(starts_after(self.current_beat_view() as int))
    }

    /// The event sounding at the current beat, if any.
    pub open spec fn current_seq_event(&self) -> Option<ChordEvent> {
        let s = self.timeline_view().events_view();
        let i = first_active_index(s, self.current_beat_view() as int);
        if i < s.len() {
            Some(s[i])
        } else {
            None
        }
    }

    /// The display data determined by the timeline state.
    pub open spec fn display_view(&self) -> TimelineDisplayData {
        let f = self.future_seq();
        let current = self.current_seq_event();
        let next = if f.len() > 0 {
            Some(f[0])
        } else {
            None
        };
        let following = if f.len() > 1 {
            Some(f[1])
        } else {
            None
        };
        let key = if current is Some {
            current->0.key_center
        } else {
            Note::C
        };
        TimelineDisplayData {
            current_chord: current,
            next_chord: next,
            following_chord: following,
            current_key_center: key,
            next_key_center: if next is Some && next->0.key_center != key {
                Some(next->0.key_center)
            } else {
                None
            },
            current_beat: self.current_beat_view(),
            measures_ahead: self.measures_ahead_view(),
        }
    }

    /// Create an empty moving timeline positioned at beat 0.
    pub fn new(time_signature: TimeSignature, config: &TimelineConfig) -> (r: Self)
        ensures
            r.wf(),
            r.timeline_view().events_view() == Seq::<ChordEvent>::empty(),
            r.timeline_view().time_signature_view() == time_signature,
            r.timeline_view().beats_per_chord_view() == config.beats_per_chord as u32,
            r.timeline_view().auto_advance_view() == config.auto_advance,
            r.current_beat_view() == 0,
            r.measures_ahead_view() == config.measures_ahead,
    {
        Self {
            timeline: ChordTimeline::new(time_signature, config),
            current_beat: 0,
            measures_ahead: config.measures_ahead,
        }
    }

    /// Append a progression: each chord paired with its key center, back to back.
    /// Extra chords or key centers beyond the shorter list are ignored.
    pub fn add_chord_progression(&mut self, chords: &[Chord], key_centers: &[Note])
        requires
            old(self).wf(),
            ({
                let n = if chords@.len() <= key_centers@.len() {
                    chords@.len()
                } else {
                    key_centers@.len()
                };
                n == 0 || next_free_beat(old(self).timeline_view().events_view()) + (n - 1)
                    * old(self).timeline_view().beats_per_chord_view() <= u32::MAX
            }),
        ensures
            final(self).wf(),
            final(self).timeline_view().events_view() == old(self).timeline_view().events_view() + progression_events(
                chords@,
                key_centers@,
                next_free_beat(old(self).timeline_view().events_view()),
                old(self).timeline_view().beats_per_chord_view() as int,
            ),
            final(self).timeline_view().time_signature_view() == old(self).timeline_view().time_signature_view(),
            final(self).timeline_view().beats_per_chord_view() == old(self).timeline_view().beats_per_chord_view(),
            final(self).timeline_view().auto_advance_view() == old(self).timeline_view().auto_advance_view(),
            final(self).current_beat_view() == old(self).current_beat_view(),
            final(self).measures_ahead_view() == old(self).measures_ahead_view(),
    {
        let n: usize = if chords.len() <= key_centers.len() {
            chords.len()
        } else {
            key_centers.len()
        };
        let ghost s0 = self.timeline.events_view();
        let ghost start = next_free_beat(s0);
        let ghost bpc = self.timeline.beats_per_chord_view() as int;
        let ghost target = progression_events(chords@, key_centers@, start, bpc);
        let mut i: usize = 0;
        while i < n
            invariant
                n <= chords@.len(),
                n <= key_centers@.len(),
                n == target.len(),
                target == progression_events(chords@, key_centers@, start, bpc),
                i <= n,
                self.wf(),
                bpc == self.timeline.beats_per_chord_view(),
                n == 0 || start + (n - 1) * bpc <= u32::MAX,
                self.timeline.events_view() == s0 + target.take(i as int),
                next_free_beat(self.timeline.events_view()) == start + i * bpc,
                self.timeline.time_signature_view() == old(self).timeline.time_signature_view(),
                self.timeline.auto_advance_view() == old(self).timeline.auto_advance_view(),
                self.current_beat == old(self).current_beat,
                self.measures_ahead == old(self).measures_ahead,
            decreases n - i,
        {
            proof {
                assert(start + i * bpc <= start + (n - 1) * bpc) by (nonlinear_arith)
                    requires
                        i <= n - 1,
                        bpc >= 0,
                ;
                assert(start + i * bpc + bpc == start + (i + 1) * bpc) by (nonlinear_arith);
            }
            let ghost before = self.timeline.events_view();
            self.timeline.add_chord_at_next_beat(chords[i], key_centers[i]);
            proof {
                assert(target[i as int].beat_position == (start + i * bpc) as u32);
                assert(s0 + target.take(i + 1) =~= before.push(target[i as int]));
            }
            i = i + 1;
        }
        assert(target.take(n as int) =~= target);
    }

    /// Display data for the current beat: the sounding chord, the next two upcoming
    /// chords of the lookahead window, and the key centers.
    pub fn get_display_data(&self) -> (r: TimelineDisplayData)
        requires
            self.wf(),
        ensures
            r == self.display_view(),
            events_sorted(self.future_seq()),
    {
        proof {
            lemma_first_active_bounds(self.timeline.events_view(), self.current_beat as int);
        }
        let current_chord: Option<ChordEvent> = match self.timeline.chord_at_beat(self.current_beat) {
            Some(e) => Some(*e),
            None => None,
        };
        let upcoming = self.timeline.upcoming_events(self.current_beat, self.measures_ahead);
        let ghost up = self.timeline.upcoming_seq(self.current_beat as int, self.measures_ahead as int);
        let ghost p = starts_after(self.current_beat as int);
        // The timeline keeps its events in beat order, so the upcoming events
        // (and any filtering of them) are already sorted by start beat.
        let mut future_chords: Vec<&ChordEvent> = Vec::new();
        let mut i: usize = 0;
        while i < upcoming.len()
            invariant
                upcoming@.len() == up.len(),
                forall|k: int| 0 <= k < upcoming@.len() ==> *(#[trigger] upcoming@[k]) == up[k],
                i <= upcoming@.len(),
                p == starts_after(self.current_beat as int),
                future_chords@.len() == up.take(i as int).filter(p).len(),
                forall|k: int|
                    0 <= k < future_chords@.len() ==> *(#[trigger] future_chords@[k]) == up.take(
                        i as int,
                    ).filter(p)[k],
            decreases upcoming@.len() - i,
        {
            proof {
                lemma_filter_take_step(up, p, i as int);
            }
            let event = upcoming[i];
            if event.beat_position > self.current_beat {
                future_chords.push(event);
            }
            i = i + 1;
        }
        assert(up.take(up.len() as int) =~= up);
        proof {
            lemma_filter_keeps_sorted(
                self.timeline.events_view(),
                starts_within(
                    self.current_beat as int,
                    self.current_beat as int + self.measures_ahead as int
                        * self.timeline.time_signature_view().beats_per_measure,
                ),
            );
            lemma_filter_keeps_sorted(up, p);
        }
        let next_chord: Option<ChordEvent> = if future_chords.len() > 0 {
            Some(*future_chords[0])
        } else {
            None
        };
        let following_chord: Option<ChordEvent> = if future_chords.len() > 1 {
            Some(*future_chords[1])
        } else {
            None
        };
        let current_key_center = match current_chord {
            Some(e) => e.key_center,
            None => Note::C,
        };
        let next_key_center = match next_chord {
            Some(e) => if e.key_center != current_key_center {
                Some(e.key_center)
            } else {
                None
            },
            None => None,
        };
        assert(current_chord == self.current_seq_event());
        assert(up.filter(p) == self.future_seq());
        TimelineDisplayData {
            current_chord,
            next_chord,
            following_chord,
            current_key_center,
            next_key_center,
            current_beat: self.current_beat,
            measures_ahead: self.measures_ahead,
        }
    }

    /// Clear the timeline and return to beat 0.
    pub fn clear(&mut self)
        ensures
            final(self).wf(),
            final(self).timeline_view().events_view() == Seq::<ChordEvent>::empty(),
            final(self).timeline_view().time_signature_view() == old(self).timeline_view().time_signature_view(),
            final(self).timeline_view().beats_per_chord_view() == old(self).timeline_view().beats_per_chord_view(),
            final(self).timeline_view().auto_advance_view() == old(self).timeline_view().auto_advance_view(),
            final(self).current_beat_view() == 0,
            final(self).measures_ahead_view() == old(self).measures_ahead_view(),
    {
        self.timeline.clear();
        self.current_beat = 0;
    }

    /// Follow a metronome beat: the beat number becomes the current beat and
    /// finished chords are dropped (with auto-advance).
    pub fn update_with_beat(&mut self, beat_number: u8)
        requires
            old(self).wf(),
        ensures
            final(self).wf(),
            old(self).timeline_view().auto_advance_view() ==> final(self).timeline_view().events_view() == old(self).timeline_view().events_view().skip(
                finished_prefix_len(old(self).timeline_view().events_view(), beat_number as int),
            ),
            !old(self).timeline_view().auto_advance_view() ==> final(self).timeline_view().events_view() == old(self).timeline_view().events_view(),
            final(self).timeline_view().time_signature_view() == old(self).timeline_view().time_signature_view(),
            final(self).timeline_view().beats_per_chord_view() == old(self).timeline_view().beats_per_chord_view(),
            final(self).timeline_view().auto_advance_view() == old(self).timeline_view().auto_advance_view(),
            final(self).current_beat_view() == beat_number as u32,
            final(self).measures_ahead_view() == old(self).measures_ahead_view(),
    {
        self.current_beat = beat_number as u32;
        self.timeline.update(self.current_beat);
    }

    /// Move to `beat` and drop the events finished by then (with auto-advance).
    pub fn jump_to_beat(&mut self, beat: u32)
        requires
            old(self).wf(),
        ensures
            final(self).wf(),
            old(self).timeline_view().auto_advance_view() ==> final(self).timeline_view().events_view() == old(self).timeline_view().events_view().skip(
                finished_prefix_len(old(self).timeline_view().events_view(), beat as int),
            ),
            !old(self).timeline_view().auto_advance_view() ==> final(self).timeline_view().events_view() == old(self).timeline_view().events_view(),
            final(self).timeline_view().time_signature_view() == old(self).timeline_view().time_signature_view(),
            final(self).timeline_view().beats_per_chord_view() == old(self).timeline_view().beats_per_chord_view(),
            final(self).timeline_view().auto_advance_view() == old(self).timeline_view().auto_advance_view(),
            final(self).current_beat_view() == beat,
            final(self).measures_ahead_view() == old(self).measures_ahead_view(),
    {
        self.current_beat = beat;
        self.timeline.update(beat);
    }

    /// Take the lookahead, chord duration and auto-advance settings from `config`.
    pub fn update_config(&mut self, config: &TimelineConfig)
        ensures
            final(self).timeline_view().events_view() == old(self).timeline_view().events_view(),
            final(self).timeline_view().time_signature_view() == old(self).timeline_view().time_signature_view(),
            final(self).timeline_view().beats_per_chord_view() == config.beats_per_chord as u32,
            final(self).timeline_view().auto_advance_view() == config.auto_advance,
            final(self).current_beat_view() == old(self).current_beat_view(),
            final(self).measures_ahead_view() == config.measures_ahead,
    {
        self.measures_ahead = config.measures_ahead;
        self.timeline.update_config(config);
    }

    /// Replace the time signature of the underlying timeline.
    pub fn update_time_signature(&mut self, time_signature: TimeSignature)
        ensures
            final(self).timeline_view().events_view() == old(self).timeline_view().events_view(),
            final(self).timeline_view().time_signature_view() == time_signature,
            final(self).timeline_view().beats_per_chord_view() == old(self).timeline_view().beats_per_chord_view(),
            final(self).timeline_view().auto_advance_view() == old(self).timeline_view().auto_advance_view(),
            final(self).current_beat_view() == old(self).current_beat_view(),
            final(self).measures_ahead_view() == old(self).measures_ahead_view(),
    {
        self.timeline.update_time_signature(time_signature);
    }

    /// The underlying timeline.
    pub fn timeline(&self) -> (r: &ChordTimeline)
        ensures
            *r == self.timeline_view(),
    {
        &self.timeline
    }

    /// Mutable access to the underlying timeline.
    pub fn timeline_mut(&mut self) -> (r: &mut ChordTimeline)
        ensures
            *r == old(self).timeline_view(),
            final(self).timeline_view() == *final(r),
            final(self).current_beat_view() == old(self).current_beat_view(),
            final(self).measures_ahead_view() == old(self).measures_ahead_view(),
    {
        &mut self.timeline
    }

    /// The current beat position.
    pub fn current_beat(&self) -> (r: u32)
        ensures
            r == self.current_beat_view(),
    {
        self.current_beat
    }

    /// Whether any event starts within the lookahead window from the current beat.
    pub fn has_upcoming_content(&self) -> (r: bool)
        ensures
            r == (self.timeline_view().upcoming_seq(
                self.current_beat_view() as int,
                self.measures_ahead_view() as int,
            ).len() > 0),
    {
        let upcoming = self.timeline.upcoming_events(self.current_beat, self.measures_ahead);
        upcoming.len() != 0
    }
}

} // verus!
