use polyphonica::melody::{
    Chord, ChordEvent, ChordQuality, ChordTimeline, MovingTimeline, Note, TimelineConfig,
    TimelineDisplayData,
};
use polyphonica::timing::TimeSignature;

fn create_test_chord(root: Note, quality: ChordQuality) -> Chord {
    Chord::new(root, quality)
}

#[test]
fn test_chord_timeline_creation() {
    let time_sig = TimeSignature::new(4, 4);
    let config = TimelineConfig::default();
    let timeline = ChordTimeline::new(time_sig, &config);

    assert!(timeline.is_empty());
    assert_eq!(timeline.event_count(), 0);
}

#[test]
fn test_add_chord_events() {
    let time_sig = TimeSignature::new(4, 4);
    let config = TimelineConfig::default();
    let mut timeline = ChordTimeline::new(time_sig, &config);

    let chord = create_test_chord(Note::C, ChordQuality::Major);
    timeline.add_chord_at_next_beat(chord, Note::C);

    assert_eq!(timeline.event_count(), 1);
    assert!(!timeline.is_empty());
}

#[test]
fn test_chord_beat_positioning() {
    let time_sig = TimeSignature::new(4, 4);
    let config = TimelineConfig::default();
    let mut timeline = ChordTimeline::new(time_sig, &config);

    let c_major = create_test_chord(Note::C, ChordQuality::Major);
    let f_major = create_test_chord(Note::F, ChordQuality::Major);

    timeline.add_chord_at_next_beat(c_major.clone(), Note::C);
    timeline.add_chord_at_next_beat(f_major.clone(), Note::C);

    // First chord should start at beat 0
    let first_event = timeline.chord_at_beat(0);
    assert!(first_event.is_some());
    assert_eq!(first_event.unwrap().chord.root, Note::C);

    // Second chord should start at beat 4 (after first chord duration)
    let second_event = timeline.chord_at_beat(4);
    assert!(second_event.is_some());
    assert_eq!(second_event.unwrap().chord.root, Note::F);
}

#[test]
fn test_timeline_update_and_cleanup() {
    let time_sig = TimeSignature::new(4, 4);
    let mut config = TimelineConfig::default();
    config.auto_advance = true;
    let mut timeline = ChordTimeline::new(time_sig, &config);

    let chord = create_test_chord(Note::C, ChordQuality::Major);
    timeline.add_chord_at_next_beat(chord, Note::C);

    assert_eq!(timeline.event_count(), 1);

    // Update past the chord duration
    timeline.update(5);

    // Event should be removed due to auto_advance
    assert_eq!(timeline.event_count(), 0);
}

#[test]
fn test_upcoming_events() {
    let time_sig = TimeSignature::new(4, 4);
    let config = TimelineConfig::default();
    let mut timeline = ChordTimeline::new(time_sig, &config);

    // Add several chords
    let chords = [
        (Note::C, ChordQuality::Major),
        (Note::F, ChordQuality::Major),
        (Note::G, ChordQuality::Major),
        (Note::C, ChordQuality::Major),
    ];

    for (root, quality) in &chords {
        let chord = create_test_chord(*root, *quality);
        timeline.add_chord_at_next_beat(chord, Note::C);
    }

    // Get upcoming events from beat 0, looking 2 measures ahead (8 beats)
    let upcoming = timeline.upcoming_events(0, 2);
    assert_eq!(upcoming.len(), 2); // Should see first 2 chords
}

#[test]
fn test_moving_timeline() {
    let time_sig = TimeSignature::new(4, 4);
    let config = TimelineConfig::default();
    let mut moving_timeline = MovingTimeline::new(time_sig, &config);

    // Add chord progression
    let chords = vec![
        create_test_chord(Note::C, ChordQuality::Major),
        create_test_chord(Note::F, ChordQuality::Major),
        create_test_chord(Note::G, ChordQuality::Major),
    ];
    let key_centers = vec![Note::C, Note::C, Note::C];

    moving_timeline.add_chord_progression(&chords, &key_centers);

    // Test display data at beat 0
    let display = moving_timeline.get_display_data();
    assert!(display.current_chord.is_some());
    assert!(display.next_chord.is_some());
    assert_eq!(display.current_key_center, Note::C);
}

#[test]
fn timeline_test_timeline_display_data() {
    let display = TimelineDisplayData::empty();
    assert!(!display.has_content());
    assert_eq!(display.current_key_center, Note::C);
    assert_eq!(display.visible_chords().len(), 0);
}

#[test]
fn test_key_center_changes() {
    let time_sig = TimeSignature::new(4, 4);
    let config = TimelineConfig::default();
    let mut moving_timeline = MovingTimeline::new(time_sig, &config);

    // Add progression with key change
    let chords = vec![
        create_test_chord(Note::C, ChordQuality::Major),
        create_test_chord(Note::G, ChordQuality::Major), // Modulate to G
    ];
    let key_centers = vec![Note::C, Note::G];

    moving_timeline.add_chord_progression(&chords, &key_centers);

    let display = moving_timeline.get_display_data();
    assert_eq!(display.current_key_center, Note::C);
    assert_eq!(display.next_key_center, Some(Note::G));
}

#[test]
fn events_stay_in_beat_order() {
    // law: whatever order events are added in, the timeline keeps them sorted by start beat
    let config = TimelineConfig::default();
    let mut timeline = ChordTimeline::new(TimeSignature::new(4, 4), &config);
    let c = create_test_chord(Note::C, ChordQuality::Major);
    for start in [12u32, 0, 8, 4, 8, 2] {
        timeline.add_chord_event(ChordEvent::new(c, start, 2, Note::C));
    }
    let starts: Vec<u32> = timeline.all_events().iter().map(|e| e.beat_position).collect();
    assert_eq!(starts, vec![0, 2, 4, 8, 8, 12]);
    // the next free beat follows the last-starting event
    timeline.add_chord_at_next_beat(c, Note::G);
    let last = timeline.all_events().back().copied().unwrap();
    assert_eq!(last.beat_position, 14);
    assert_eq!(last.duration_beats, 4);
    assert_eq!(last.key_center, Note::G);
}

#[test]
fn chord_lookup_and_windows() {
    let config = TimelineConfig::default();
    let mut timeline = ChordTimeline::new(TimeSignature::new(3, 4), &config);
    let c = create_test_chord(Note::C, ChordQuality::Major);
    let d = create_test_chord(Note::D, ChordQuality::Minor);
    timeline.add_chord_at_next_beat(c, Note::C);
    timeline.add_chord_at_next_beat(d, Note::C);
    assert_eq!(timeline.chord_at_beat(3).unwrap().chord, c);
    assert_eq!(timeline.chord_at_beat(4).unwrap().chord, d);
    assert!(timeline.chord_at_beat(8).is_none());
    // 3/4 time: one measure ahead of beat 2 reaches beat 5; only the chord at beat 4 starts in [2, 5)
    let upcoming = timeline.upcoming_events(2, 1);
    assert_eq!(upcoming.len(), 1);
    assert_eq!(upcoming[0].chord, d);
    assert!(timeline.upcoming_events(100, 4).is_empty());
    timeline.clear();
    assert!(timeline.is_empty());
}

#[test]
fn update_without_auto_advance_keeps_events() {
    let mut config = TimelineConfig::default();
    config.auto_advance = false;
    let mut timeline = ChordTimeline::new(TimeSignature::new(4, 4), &config);
    let c = create_test_chord(Note::C, ChordQuality::Major);
    timeline.add_chord_at_next_beat(c, Note::C);
    timeline.add_chord_at_next_beat(c, Note::C);
    timeline.update(100);
    assert_eq!(timeline.event_count(), 2);
    // with auto-advance on, only the finished first event goes
    config.auto_advance = true;
    timeline.update_config(&config);
    timeline.update(5);
    assert_eq!(timeline.event_count(), 1);
    assert_eq!(timeline.all_events()[0].beat_position, 4);
}

#[test]
fn moving_timeline_tracks_current_beat() {
    let config = TimelineConfig::default();
    let mut moving = MovingTimeline::new(TimeSignature::new(4, 4), &config);
    assert!(!moving.has_upcoming_content());
    let chords = vec![
        create_test_chord(Note::A, ChordQuality::Minor),
        create_test_chord(Note::D, ChordQuality::Minor),
        create_test_chord(Note::E, ChordQuality::Major),
        create_test_chord(Note::A, ChordQuality::Minor),
    ];
    let keys = vec![Note::A, Note::A, Note::A, Note::A];
    moving.add_chord_progression(&chords, &keys);
    assert!(moving.has_upcoming_content());
    let display = moving.get_display_data();
    assert_eq!(display.current_chord.unwrap().chord, chords[0]);
    assert_eq!(display.next_chord.unwrap().chord, chords[1]);
    // the window reaches two measures (8 beats) ahead: the chord at beat 8 is beyond it
    assert!(display.following_chord.is_none());
    assert_eq!(display.visible_chords().len(), 2);
    assert!(display.has_content());

    moving.jump_to_beat(5);
    assert_eq!(moving.current_beat(), 5);
    let display = moving.get_display_data();
    assert_eq!(display.current_beat, 5);
    assert_eq!(display.current_chord.unwrap().chord, chords[1]);
    assert_eq!(display.next_chord.unwrap().chord, chords[2]);
    assert_eq!(display.following_chord.unwrap().chord, chords[3]);
    // the finished first chord was dropped
    assert_eq!(moving.timeline().event_count(), 3);

    moving.clear();
    assert_eq!(moving.current_beat(), 0);
    assert_eq!(moving.timeline().event_count(), 0);
}

#[test]
fn progression_with_fewer_key_centers_stops_short() {
    let config = TimelineConfig::default();
    let mut moving = MovingTimeline::new(TimeSignature::new(4, 4), &config);
    let chords = vec![
        create_test_chord(Note::C, ChordQuality::Major),
        create_test_chord(Note::F, ChordQuality::Major),
    ];
    moving.add_chord_progression(&chords, &[Note::C]);
    assert_eq!(moving.timeline().event_count(), 1);
}
