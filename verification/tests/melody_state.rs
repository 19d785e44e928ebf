use polyphonica::melody::generator::{GenerationContext, TransitionCounts};
use polyphonica::melody::{
    Chord, ChordQuality, ChordSource, KeySelection, MelodyAssistantState, Note, StandardMusicTheory,
    TimelineConfig,
};
use polyphonica::timing::TimeSignature;

/// Cycles through the enabled notes as major chords, recording what it was asked.
struct CyclingSource {
    next: usize,
    asked_beats: Vec<u32>,
    previous: Vec<Option<Chord>>,
}

impl CyclingSource {
    fn new() -> Self {
        Self { next: 0, asked_beats: Vec::new(), previous: Vec::new() }
    }
}

impl ChordSource for CyclingSource {
    fn generate_next_chord(
        &mut self,
        current_chord: Option<&Chord>,
        key_selection: &KeySelection,
        context: &GenerationContext,
    ) -> Option<Chord> {
        self.asked_beats.push(context.current_beat);
        self.previous.push(current_chord.copied());
        let notes = key_selection.enabled_note_list();
        if notes.is_empty() {
            return None;
        }
        let root = notes[self.next % notes.len()];
        self.next += 1;
        Some(Chord::new(root, ChordQuality::Major))
    }
}

/// Never has a chord to offer.
struct SilentSource;

impl ChordSource for SilentSource {
    fn generate_next_chord(
        &mut self,
        _current_chord: Option<&Chord>,
        _key_selection: &KeySelection,
        _context: &GenerationContext,
    ) -> Option<Chord> {
        None
    }
}

fn assistant(ahead: u32) -> MelodyAssistantState<CyclingSource> {
    MelodyAssistantState::new(
        CyclingSource::new(),
        KeySelection::for_major_key(Note::C),
        TimeSignature::new(4, 4),
        TimelineConfig::default(),
        ahead,
    )
}

#[test]
fn test_melody_assistant_creation() {
    let state = assistant(32);
    assert!(!state.is_running());
    assert_eq!(state.get_current_key(), Note::C);
}

#[test]
fn test_start_stop_functionality() {
    let mut state = assistant(32);
    state.start();
    assert!(state.is_running());
    let display = state.get_timeline_display();
    assert!(display.current_chord.is_some());
    state.stop();
    assert!(!state.is_running());
    let display = state.get_timeline_display();
    assert!(display.current_chord.is_none());
}

#[test]
fn test_key_selection_update() {
    let mut state = assistant(32);
    state.update_key_selection(KeySelection::for_major_key(Note::G));
    assert_eq!(state.get_current_key(), Note::G);
    assert_eq!(state.get_key_selection().primary_key, Some(Note::G));
}

#[test]
fn test_jump_to_beat() {
    let mut state = assistant(32);
    state.start();
    state.jump_to_beat(16);
    let display = state.get_timeline_display();
    assert_eq!(display.current_beat, 16);
}

#[test]
fn start_generates_the_window_ahead() {
    let mut state = assistant(16);
    state.start();
    // four-beat chords from beat 0 on; the display looks two measures ahead
    let display = state.get_timeline_display();
    let current = display.current_chord.unwrap();
    let next = display.next_chord.unwrap();
    assert_eq!((current.beat_position, current.duration_beats, current.key_center), (0, 4, Note::C));
    assert_eq!((next.beat_position, next.duration_beats, next.key_center), (4, 4, Note::C));
    assert!(display.following_chord.is_none());
    // further ahead: the chords at 8 and 12 were generated too
    state.jump_to_beat(8);
    let display = state.get_timeline_display();
    assert_eq!(display.current_chord.unwrap().beat_position, 8);
    assert_eq!(display.next_chord.unwrap().beat_position, 12);
    // starting again while running changes nothing
    state.start();
    assert_eq!(state.get_timeline_display().current_beat, 8);
}

#[test]
fn beats_generate_further_when_needed() {
    let mut state = assistant(8);
    state.update_with_beat(3); // not running: nothing happens
    assert_eq!(state.get_timeline_display().current_beat, 0);
    state.start();
    // chords at 0 and 4 cover up to beat 8
    state.update_with_beat(2);
    let display = state.get_timeline_display();
    assert_eq!(display.current_beat, 2);
    assert_eq!(display.current_chord.unwrap().beat_position, 0);
    // at beat 4 the window reaches beat 12: one more chord at 8
    state.update_with_beat(4);
    let display = state.get_timeline_display();
    assert_eq!(display.current_chord.unwrap().beat_position, 4);
    assert_eq!(display.next_chord.unwrap().beat_position, 8);
    assert_eq!(display.next_chord.unwrap().duration_beats, 4);
}

#[test]
fn a_silent_source_leaves_the_timeline_empty() {
    let mut state = MelodyAssistantState::new(
        SilentSource,
        KeySelection::for_minor_key(Note::A),
        TimeSignature::new(3, 4),
        TimelineConfig::default(),
        12,
    );
    assert_eq!(state.get_current_key(), Note::A);
    state.start();
    assert!(state.get_timeline_display().current_chord.is_none());
    assert!(!state.get_timeline_display().has_content());
}

#[test]
fn key_change_while_running_restarts_in_the_new_key() {
    let mut state = assistant(8);
    state.start();
    state.jump_to_beat(4);
    state.update_key_selection(KeySelection::for_major_key(Note::D));
    let display = state.get_timeline_display();
    assert_eq!(display.current_beat, 0);
    assert_eq!(display.current_chord.unwrap().key_center, Note::D);
    assert_eq!(display.current_key_center, Note::D);
    // the same key again changes nothing
    state.update_key_selection(KeySelection::for_major_key(Note::D));
    assert_eq!(state.get_timeline_display().current_beat, 0);
    // a selection without a primary key keeps the key
    state.update_key_selection(KeySelection::new());
    assert_eq!(state.get_current_key(), Note::D);
}

#[test]
fn chord_length_follows_the_timeline_config() {
    let mut state = assistant(8);
    let mut config = TimelineConfig::default();
    config.beats_per_chord = 2;
    state.update_timeline_config(config);
    state.update_time_signature(TimeSignature::new(3, 4));
    state.start();
    let display = state.get_timeline_display();
    assert_eq!(display.current_chord.unwrap().duration_beats, 2);
    assert_eq!(display.next_chord.unwrap().beat_position, 2);
    state.set_generation_ahead_beats(4);
    state.regenerate_progression();
    assert!(state.is_running());
    let _theory: &StandardMusicTheory = state.music_theory();
}

#[test]
fn transition_counts_learn_progressions() {
    let mut counts = TransitionCounts::new();
    let c = Chord::new(Note::C, ChordQuality::Major);
    let g = Chord::new(Note::G, ChordQuality::Major);
    let a_minor = Chord::new(Note::A, ChordQuality::Minor);
    assert_eq!(counts.count(None, Note::C, &c), 0);
    counts.train_on_progression(&[c, g, c, g], Note::C);
    assert_eq!(counts.count(None, Note::C, &c), 1);
    assert_eq!(counts.count(Some(c), Note::C, &g), 2);
    assert_eq!(counts.count(Some(g), Note::C, &c), 1);
    assert_eq!(counts.count(Some(c), Note::G, &g), 0);
    counts.add_transition(Some(c), &a_minor, Note::C);
    assert_eq!(counts.count(Some(c), Note::C, &a_minor), 1);
    assert_eq!(counts.count(Some(c), Note::C, &g), 2);
    counts.train_on_progression(&[], Note::C);
    assert_eq!(counts.count(None, Note::C, &c), 1);
}

#[test]
fn common_progressions_train_every_key() {
    let counts = TransitionCounts::from_common_progressions(&StandardMusicTheory::new());
    let c = Chord::new(Note::C, ChordQuality::Major);
    let g = Chord::new(Note::G, ChordQuality::Major);
    let a_minor = Chord::new(Note::A, ChordQuality::Minor);
    let f = Chord::new(Note::F, ChordQuality::Major);
    // I opens two progressions in C, vi one
    assert_eq!(counts.count(None, Note::C, &c), 2);
    assert_eq!(counts.count(None, Note::C, &a_minor), 1);
    // I-V (pop), I-V (vi-IV-I-V)
    assert_eq!(counts.count(Some(c), Note::C, &g), 2);
    // vi-IV twice
    assert_eq!(counts.count(Some(a_minor), Note::C, &f), 2);
    // the same in G: I = G, V = D
    let d = Chord::new(Note::D, ChordQuality::Major);
    assert_eq!(counts.count(Some(g), Note::G, &d), 2);
    assert_eq!(counts.count(Some(c), Note::G, &g), 1);
}

#[test]
fn test_progression_training() {
    let mut counts = TransitionCounts::new();

    // Train on I-V-vi-IV progression in C
    let progression = vec![
        Chord::new(Note::C, ChordQuality::Major), // I
        Chord::new(Note::G, ChordQuality::Major), // V
        Chord::new(Note::A, ChordQuality::Minor), // vi
        Chord::new(Note::F, ChordQuality::Major), // IV
    ];

    counts.train_on_progression(&progression, Note::C);

    // Check that transitions were added from C major in the key of C
    let from = Some(Chord::new(Note::C, ChordQuality::Major));
    assert!(counts.count(from, Note::C, &Chord::new(Note::G, ChordQuality::Major)) > 0);
}

fn assistant_for_key(key: Note, is_major: bool) -> MelodyAssistantState<CyclingSource> {
    MelodyAssistantState::new(
        CyclingSource::new(),
        KeySelection::for_key(key, is_major),
        TimeSignature::new(4, 4),
        TimelineConfig::default(),
        32,
    )
}

#[test]
fn test_melody_assistant_for_key() {
    let assistant = assistant_for_key(Note::G, true);
    assert_eq!(assistant.get_current_key(), Note::G);
    assert!(assistant.get_key_selection().is_note_enabled(Note::G));
}

#[test]
fn test_beat_event_processing() {
    let mut assistant = assistant_for_key(Note::C, true);
    assistant.start();

    // A beat event on beat 1; should not panic
    assistant.update_with_beat(1);
    assert!(assistant.is_running());
}

#[test]
fn state_test_timeline_display_data() {
    let assistant = assistant_for_key(Note::C, true);
    let display = assistant.get_timeline_display();

    // Should have valid data structure
    assert_eq!(display.current_key_center, Note::C);
    assert_eq!(display.current_beat, 0);
}

#[test]
fn test_time_signature_update() {
    let mut assistant = assistant_for_key(Note::C, true);
    let new_time_sig = TimeSignature::new(3, 4);

    assistant.update_time_signature(new_time_sig);
    assert_eq!(assistant.time_signature(), new_time_sig);
}

#[test]
fn test_regenerate_progression() {
    let mut assistant = assistant_for_key(Note::C, true);
    assistant.start();

    // Should not panic and should work when running
    assistant.regenerate_progression();
    assert!(assistant.get_timeline_display().current_chord.is_some());
}

#[test]
fn generated_chords_are_placed_in_beat_order() {
    let mut state = assistant(16);
    let g = Chord::new(Note::G, ChordQuality::Major);
    let d = Chord::new(Note::D, ChordQuality::Minor);
    state.place_generated(Some(g), 8);
    state.place_generated(None, 4);
    state.place_generated(Some(d), 4);
    state.jump_to_beat(4);
    let display = state.get_timeline_display();
    let current = display.current_chord.unwrap();
    assert_eq!((current.chord, current.beat_position, current.duration_beats, current.key_center), (d, 4, 4, Note::C));
    let next = display.next_chord.unwrap();
    assert_eq!((next.chord, next.beat_position), (g, 8));
    assert!(!next.accent);
}

/// What a chord source was handed: beat, chord before, key, measure position, history length.
type Asked = (u32, Option<Chord>, Option<Note>, u8, usize);

/// Cycles through the enabled notes like `CyclingSource`, writing each request to a shared log.
struct RecordingSource {
    next: usize,
    log: std::rc::Rc<std::cell::RefCell<Vec<Asked>>>,
}

impl ChordSource for RecordingSource {
    fn generate_next_chord(
        &mut self,
        current_chord: Option<&Chord>,
        key_selection: &KeySelection,
        context: &GenerationContext,
    ) -> Option<Chord> {
        self.log.borrow_mut().push((
            context.current_beat,
            current_chord.copied(),
            context.current_key,
            context.measure_position,
            context.recent_chords.len(),
        ));
        let notes = key_selection.enabled_note_list();
        let root = notes[self.next % notes.len()];
        self.next += 1;
        Some(Chord::new(root, ChordQuality::Major))
    }
}

fn recording_assistant(
    ahead: u32,
) -> (MelodyAssistantState<RecordingSource>, std::rc::Rc<std::cell::RefCell<Vec<Asked>>>) {
    let log = std::rc::Rc::new(std::cell::RefCell::new(Vec::new()));
    let source = RecordingSource { next: 0, log: log.clone() };
    let state = MelodyAssistantState::new(
        source,
        KeySelection::for_major_key(Note::C),
        TimeSignature::new(4, 4),
        TimelineConfig::default(),
        ahead,
    );
    (state, log)
}

#[test]
fn the_source_is_asked_with_the_chord_before_each_generation_beat() {
    let (mut state, log) = recording_assistant(8);
    let c = Chord::new(Note::C, ChordQuality::Major);
    let d = Chord::new(Note::D, ChordQuality::Major);
    let e = Chord::new(Note::E, ChordQuality::Major);
    state.start();
    assert_eq!(
        *log.borrow(),
        vec![(0, None, Some(Note::C), 1, 0), (4, Some(c), Some(Note::C), 1, 1)]
    );
    // beat 5 reaches beat 13: a new run asks for beats 8 and 12 with a fresh history
    state.update_with_beat(5);
    assert_eq!(log.borrow().len(), 4);
    assert_eq!(log.borrow()[2], (8, Some(d), Some(Note::C), 1, 0));
    assert_eq!(log.borrow()[3], (12, Some(e), Some(Note::C), 1, 1));
    // covered up to beat 16: beat 6 asks nothing
    state.update_with_beat(6);
    assert_eq!(log.borrow().len(), 4);
}

#[test]
fn regenerating_replaces_the_chords_that_have_not_started() {
    let (mut state, log) = recording_assistant(8);
    let d = Chord::new(Note::D, ChordQuality::Major);
    let g = Chord::new(Note::G, ChordQuality::Major);
    let a = Chord::new(Note::A, ChordQuality::Major);
    state.start();
    state.update_with_beat(5); // events: D@4, E@8, F@12
    state.regenerate_progression();
    // D@4 sounds on; E@8 and F@12 are replaced from where D ends
    assert_eq!(log.borrow().len(), 6);
    assert_eq!(log.borrow()[4], (8, Some(d), Some(Note::C), 1, 0));
    assert_eq!(log.borrow()[5], (12, Some(g), Some(Note::C), 1, 1));
    let display = state.get_timeline_display();
    assert_eq!(display.current_beat, 5);
    assert_eq!((display.current_chord.unwrap().chord, display.current_chord.unwrap().beat_position), (d, 4));
    assert_eq!((display.next_chord.unwrap().chord, display.next_chord.unwrap().beat_position), (g, 8));
    assert_eq!((display.following_chord.unwrap().chord, display.following_chord.unwrap().beat_position), (a, 12));
}

#[test]
fn regenerating_while_stopped_asks_nothing() {
    let (mut state, log) = recording_assistant(8);
    state.regenerate_progression();
    assert!(log.borrow().is_empty());
    assert!(!state.get_timeline_display().has_content());
}
