use polyphonica::melody::generator::GenerationContext;
use polyphonica::melody::{Chord, ChordQuality, Note};
use polyphonica::timing::TimeSignature;

#[test]
fn test_generation_context() {
    let mut context = GenerationContext::new(TimeSignature::new(4, 4));

    assert_eq!(context.measure_position, 1);
    assert!(context.is_strong_beat());

    context.advance_beat();
    assert_eq!(context.measure_position, 2);
    assert!(!context.is_strong_beat());

    context.advance_beat();
    assert_eq!(context.measure_position, 3);
    assert!(context.is_strong_beat());
}

#[test]
fn measure_position_wraps() {
    let mut context = GenerationContext::new(TimeSignature::new(3, 4));
    let mut positions = Vec::new();
    for _ in 0..7 {
        context.advance_beat();
        positions.push(context.measure_position);
    }
    // beats 1..=7 of a 3/4 measure that starts at beat 0
    assert_eq!(positions, vec![2, 3, 1, 2, 3, 1, 2]);
    assert_eq!(context.current_beat, 7);
    assert!(!context.is_strong_beat());
    context.advance_beat();
    context.advance_beat();
    assert_eq!(context.measure_position, 1);
    assert!(context.is_strong_beat());
}

#[test]
fn history_keeps_the_last_eight() {
    // law: the history never holds more than eight chords and ends with the newest
    let mut context = GenerationContext::new(TimeSignature::new(4, 4));
    assert!(context.last_chord().is_none());
    let roots = Note::all();
    for (i, root) in roots.iter().enumerate() {
        let chord = Chord::new(*root, ChordQuality::Major);
        context.add_chord(chord);
        assert!(context.recent_chords.len() <= 8);
        assert_eq!(context.recent_chords.len(), (i + 1).min(8));
        assert_eq!(context.last_chord(), Some(&chord));
    }
    // the four oldest were dropped
    assert_eq!(context.recent_chords[0], Chord::new(Note::E, ChordQuality::Major));
    let c_major = Chord::new(Note::C, ChordQuality::Major);
    assert!(!context.was_used_recently(&c_major, 8));
    let b_major = Chord::new(Note::B, ChordQuality::Major);
    let a_major = Chord::new(Note::A, ChordQuality::Major);
    assert!(context.was_used_recently(&b_major, 1));
    assert!(!context.was_used_recently(&a_major, 2));
    assert!(context.was_used_recently(&a_major, 3));
    assert!(!context.was_used_recently(&b_major, 0));
    assert!(context.was_used_recently(&Chord::new(Note::E, ChordQuality::Major), 100));
}
