use polyphonica::melody::{Chord, ChordEvent, ChordQuality, KeySelection, Note, TimelineConfig};

#[test]
fn test_note_semitone_conversion() {
    assert_eq!(Note::C.as_semitone(), 0);
    assert_eq!(Note::CSharp.as_semitone(), 1);
    assert_eq!(Note::B.as_semitone(), 11);

    assert_eq!(Note::from_semitone(0), Note::C);
    assert_eq!(Note::from_semitone(11), Note::B);
    assert_eq!(Note::from_semitone(12), Note::C); // Wraps around
}

#[test]
fn test_note_transposition() {
    assert_eq!(Note::C.transpose(7), Note::G); // Perfect fifth
    assert_eq!(Note::G.transpose(-7), Note::C); // Down a fifth
    assert_eq!(Note::B.transpose(1), Note::C); // Wraps around
}

#[test]
fn test_chord_symbol() {
    let c_major = Chord::new(Note::C, ChordQuality::Major);
    assert_eq!(c_major.symbol(), "C");

    let d_minor = Chord::new(Note::D, ChordQuality::Minor);
    assert_eq!(d_minor.symbol(), "Dm");

    let g7 = Chord::new(Note::G, ChordQuality::Dominant7);
    assert_eq!(g7.symbol(), "G7");
}

#[test]
fn test_chord_tones() {
    let c_major = Chord::new(Note::C, ChordQuality::Major);
    let tones = c_major.chord_tones();
    assert_eq!(tones, vec![Note::C, Note::E, Note::G]);

    let f_minor7 = Chord::new(Note::F, ChordQuality::Minor7);
    let tones = f_minor7.chord_tones();
    assert_eq!(tones, vec![Note::F, Note::GSharp, Note::C, Note::DSharp]);
}

#[test]
fn test_key_selection() {
    let c_major = KeySelection::for_major_key(Note::C);
    assert!(c_major.is_note_enabled(Note::C));
    assert!(c_major.is_note_enabled(Note::E));
    assert!(c_major.is_note_enabled(Note::G));
    assert!(!c_major.is_note_enabled(Note::CSharp));
    assert_eq!(c_major.enabled_count(), 7);

    let a_minor = KeySelection::for_minor_key(Note::A);
    assert!(a_minor.is_note_enabled(Note::A));
    assert!(a_minor.is_note_enabled(Note::C));
    assert!(a_minor.is_note_enabled(Note::E));
    assert!(!a_minor.is_note_enabled(Note::ASharp));
}

#[test]
fn test_chord_event() {
    let chord = Chord::new(Note::C, ChordQuality::Major);
    let event = ChordEvent::new(chord, 0, 4, Note::C);

    assert!(event.is_active_at_beat(0));
    assert!(event.is_active_at_beat(3));
    assert!(!event.is_active_at_beat(4));
    assert_eq!(event.end_beat(), 4);
}

#[test]
fn note_names_and_all_notes() {
    let all = Note::all();
    assert_eq!(all.len(), 12);
    for (i, note) in all.iter().enumerate() {
        assert_eq!(note.as_semitone() as usize, i);
        assert_eq!(Note::from_semitone(i as u8), *note);
    }
    assert_eq!(Note::CSharp.name(), "C#");
    assert_eq!(Note::ASharp.name(), "A#");
    assert_eq!(Note::from_semitone(255), Note::DSharp); // 255 = 21 * 12 + 3
}

#[test]
fn transposition_composes_and_round_trips() {
    // law: transposing by a then b is transposing by a + b; 12 steps is the identity
    for note in Note::all().iter() {
        for a in -12i8..=12 {
            for b in -12i8..=12 {
                assert_eq!(note.transpose(a).transpose(b), note.transpose(a + b));
            }
        }
        assert_eq!(note.transpose(12), *note);
        assert_eq!(note.transpose(-12), *note);
        assert_eq!(Note::from_semitone(note.as_semitone()), *note);
    }
}

#[test]
fn chord_symbols_with_inversions() {
    let c_major_first = Chord::with_inversion(Note::C, ChordQuality::Major, 1);
    assert_eq!(c_major_first.symbol(), "C/E");
    assert_eq!(c_major_first.bass_note(), Note::E);
    let c_major_second = Chord::with_inversion(Note::C, ChordQuality::Major, 2);
    assert_eq!(c_major_second.symbol(), "C/G");
    // the inversion wraps around the chord tones
    let c_major_fourth = Chord::with_inversion(Note::C, ChordQuality::Major, 4);
    assert_eq!(c_major_fourth.bass_note(), Note::E);
    assert_eq!(c_major_fourth.root_position(), Chord::new(Note::C, ChordQuality::Major));
    assert_eq!(Chord::new(Note::A, ChordQuality::MinorMajor7).symbol(), "Am(maj7)");
    assert_eq!(Chord::new(Note::B, ChordQuality::Diminished).symbol(), "B\u{b0}");
    assert_eq!(Chord::new(Note::F, ChordQuality::Major).bass_note(), Note::F);
}

#[test]
fn chord_contains_note_and_dissonance() {
    let g7 = Chord::new(Note::G, ChordQuality::Dominant7);
    assert_eq!(g7.chord_tones(), vec![Note::G, Note::B, Note::D, Note::F]);
    assert!(g7.contains_note(Note::F));
    assert!(!g7.contains_note(Note::C));
    assert!(ChordQuality::Diminished.is_dissonant());
    assert!(ChordQuality::Dominant7.is_dissonant());
    assert!(!ChordQuality::Major.is_dissonant());
    assert_eq!(ChordQuality::Sus2.intervals(), vec![0, 2, 7]);
    assert_eq!(ChordQuality::Minor.symbol(), "m");
}

#[test]
fn chord_event_edges() {
    let chord = Chord::new(Note::D, ChordQuality::Minor);
    let event = ChordEvent::with_accent(chord, 8, 2, Note::C);
    assert!(event.accent);
    assert!(!event.is_active_at_beat(7));
    assert!(event.is_active_at_beat(8));
    assert!(event.is_active_at_beat(9));
    assert!(!event.is_active_at_beat(10));
    assert_eq!(event.end_beat(), 10);
    // an event reaching past u32::MAX is still active at the last beat
    let late = ChordEvent::new(chord, u32::MAX - 1, 5, Note::C);
    assert!(late.is_active_at_beat(u32::MAX));
    let empty = ChordEvent::new(chord, 3, 0, Note::C);
    assert!(!empty.is_active_at_beat(3));
}

#[test]
fn key_selection_editing() {
    let mut selection = KeySelection::new();
    assert_eq!(selection.enabled_count(), 0);
    assert!(selection.enabled_note_list().is_empty());
    selection.set_note_enabled(Note::D, true);
    selection.set_note_enabled(Note::A, true);
    assert_eq!(selection.enabled_count(), 2);
    assert_eq!(selection.enabled_note_list(), vec![Note::D, Note::A]);
    selection.set_note_enabled(Note::D, false);
    assert_eq!(selection.enabled_note_list(), vec![Note::A]);
    assert_eq!(KeySelection::all_notes().enabled_count(), 12);
    let default = KeySelection::default();
    assert_eq!(default.primary_key, Some(Note::C));
    assert_eq!(default.enabled_count(), 7);
}

#[test]
fn every_scale_has_seven_notes() {
    // law: a major or natural minor selection enables exactly seven notes,
    // and a major key shares its notes with its relative minor
    for key in Note::all().iter() {
        let major = KeySelection::for_major_key(*key);
        let minor = KeySelection::for_minor_key(*key);
        assert_eq!(major.enabled_count(), 7);
        assert_eq!(minor.enabled_count(), 7);
        let relative = KeySelection::for_minor_key(key.transpose(-3));
        assert_eq!(major.enabled_note_list(), relative.enabled_note_list());
        assert_eq!(KeySelection::for_key(*key, true).enabled_note_list(), major.enabled_note_list());
        assert_eq!(KeySelection::for_key(*key, false).enabled_note_list(), minor.enabled_note_list());
    }
    // G major, listed from C upwards
    assert_eq!(
        KeySelection::for_major_key(Note::G).enabled_note_list(),
        vec![Note::C, Note::D, Note::E, Note::FSharp, Note::G, Note::A, Note::B]
    );
}

#[test]
fn timeline_config_defaults() {
    let config = TimelineConfig::default();
    assert_eq!(config.measures_ahead, 2);
    assert_eq!(config.beats_per_chord, 4);
    assert!(config.auto_advance);
    assert!(config.show_key_changes);
}
