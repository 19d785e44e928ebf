use polyphonica::melody::{
    Chord, ChordFunction, ChordQuality, CircleOfFifths, KeySelection, Note, ScaleType,
    StandardMusicTheory, VoiceLeading,
};

#[test]
fn test_circle_of_fifths() {
    assert_eq!(CircleOfFifths::position(Note::C), 0);
    assert_eq!(CircleOfFifths::position(Note::G), 1);
    assert_eq!(CircleOfFifths::position(Note::F), 11);

    assert_eq!(CircleOfFifths::distance(Note::C, Note::G), 1);
    assert_eq!(CircleOfFifths::distance(Note::C, Note::F), 1);
    assert_eq!(CircleOfFifths::distance(Note::C, Note::FSharp), 6);
}

#[test]
fn test_relative_keys() {
    assert_eq!(CircleOfFifths::relative_key(Note::C, true), Note::A); // C major -> A minor
    assert_eq!(CircleOfFifths::relative_key(Note::A, false), Note::C); // A minor -> C major
}

/// Average voice movement from one chord to another, as the smoothness measure.
fn smoothness(from: &Chord, to: &Chord) -> f32 {
    let (total, voices) = VoiceLeading::total_movement(from, to);
    if voices == 0 {
        12.0
    } else {
        total as f32 / voices as f32
    }
}

#[test]
fn test_voice_leading() {
    let c_major = Chord::new(Note::C, ChordQuality::Major);
    let f_major = Chord::new(Note::F, ChordQuality::Major);
    let g_major = Chord::new(Note::G, ChordQuality::Major);

    // C to F should be smoother than C to random distant chord
    let smoothness_cf = smoothness(&c_major, &f_major);
    let smoothness_cg = smoothness(&c_major, &g_major);

    assert!(smoothness_cf < 6.0); // Should be reasonably smooth
    assert!(smoothness_cg < 6.0); // Should be reasonably smooth
}

#[test]
fn test_music_theory_implementation() {
    let theory = StandardMusicTheory::new();

    // Test scale generation
    let c_major_scale = theory.get_scale_notes(Note::C, ScaleType::Major);
    assert_eq!(c_major_scale.len(), 7);
    assert!(c_major_scale.contains(&Note::C));
    assert!(c_major_scale.contains(&Note::E));
    assert!(c_major_scale.contains(&Note::G));

    // Test chord fitting
    let c_major = Chord::new(Note::C, ChordQuality::Major);
    let c_major_key = KeySelection::for_major_key(Note::C);
    assert!(theory.chord_fits_key(&c_major, &c_major_key));

    // Test chord that doesn't fit
    let c_sharp_major = Chord::new(Note::CSharp, ChordQuality::Major);
    assert!(!theory.chord_fits_key(&c_sharp_major, &c_major_key));
}

#[test]
fn test_chord_functions() {
    let theory = StandardMusicTheory::new();

    let c_major = Chord::new(Note::C, ChordQuality::Major);
    let f_major = Chord::new(Note::F, ChordQuality::Major);
    let g_major = Chord::new(Note::G, ChordQuality::Major);

    assert_eq!(theory.chord_function(&c_major, Note::C), ChordFunction::Tonic);
    assert_eq!(theory.chord_function(&f_major, Note::C), ChordFunction::Subdominant);
    assert_eq!(theory.chord_function(&g_major, Note::C), ChordFunction::Dominant);
}

#[test]
fn circle_of_fifths_relations() {
    for note in Note::all().iter() {
        // law: position is 7 times the pitch class, modulo 12
        assert_eq!(CircleOfFifths::position(*note) as u32, (7 * note.as_semitone() as u32) % 12);
        // law: the relative minor's relative major is the key; dominant and subdominant are a step away
        let relative_minor = CircleOfFifths::relative_key(*note, true);
        assert_eq!(CircleOfFifths::relative_key(relative_minor, false), *note);
        assert_eq!(CircleOfFifths::distance(*note, CircleOfFifths::dominant(*note)), 1);
        assert_eq!(CircleOfFifths::distance(*note, CircleOfFifths::subdominant(*note)), 1);
        assert_eq!(CircleOfFifths::dominant(CircleOfFifths::subdominant(*note)), *note);
        assert_eq!(CircleOfFifths::parallel_key(*note), *note);
        for other in Note::all().iter() {
            let d = CircleOfFifths::distance(*note, *other);
            assert_eq!(d, CircleOfFifths::distance(*other, *note));
            assert!(d <= 6);
            assert_eq!(d == 0, note == other);
        }
    }
    assert_eq!(CircleOfFifths::dominant(Note::D), Note::A);
    assert_eq!(CircleOfFifths::subdominant(Note::D), Note::G);
}

#[test]
fn voice_leading_values() {
    let c_major = Chord::new(Note::C, ChordQuality::Major);
    let a_minor = Chord::new(Note::A, ChordQuality::Minor);
    // C E G -> A C E: C stays, E stays, G moves 2 to A
    assert_eq!(VoiceLeading::total_movement(&c_major, &a_minor), (2, 3));
    assert!(VoiceLeading::has_good_voice_leading(&c_major, &a_minor));
    let f_sharp = Chord::new(Note::FSharp, ChordQuality::Major);
    // C -> C# or A# (1... ) : C to C# 1, E to F# 2, G to F# 1
    assert_eq!(VoiceLeading::total_movement(&c_major, &f_sharp), (4, 3));
    assert!(VoiceLeading::has_good_voice_leading(&c_major, &f_sharp));
    assert_eq!(VoiceLeading::suggest_inversion(&c_major, &f_sharp), 0);
    assert_eq!(VoiceLeading::total_movement(&c_major, &c_major), (0, 3));
}

#[test]
fn scale_notes_of_each_type() {
    let theory = StandardMusicTheory::default();
    assert_eq!(
        theory.get_scale_notes(Note::A, ScaleType::NaturalMinor),
        vec![Note::A, Note::B, Note::C, Note::D, Note::E, Note::F, Note::G]
    );
    assert_eq!(
        theory.get_scale_notes(Note::A, ScaleType::HarmonicMinor),
        vec![Note::A, Note::B, Note::C, Note::D, Note::E, Note::F, Note::GSharp]
    );
    assert_eq!(
        theory.get_scale_notes(Note::A, ScaleType::MelodicMinor),
        vec![Note::A, Note::B, Note::C, Note::D, Note::E, Note::FSharp, Note::GSharp]
    );
    assert_eq!(
        theory.get_scale_notes(Note::D, ScaleType::Dorian),
        vec![Note::D, Note::E, Note::F, Note::G, Note::A, Note::B, Note::C]
    );
    assert_eq!(
        theory.get_scale_notes(Note::G, ScaleType::Mixolydian),
        vec![Note::G, Note::A, Note::B, Note::C, Note::D, Note::E, Note::F]
    );
    assert_eq!(theory.get_chord_tones(&Chord::new(Note::D, ChordQuality::Sus4)), vec![
        Note::D,
        Note::G,
        Note::A,
    ]);
}

#[test]
fn scales_match_key_selections() {
    // law: the major (natural minor) scale holds exactly the notes of the major (minor) key selection
    let theory = StandardMusicTheory::new();
    for key in Note::all().iter() {
        let major = theory.get_scale_notes(*key, ScaleType::Major);
        let minor = theory.get_scale_notes(*key, ScaleType::NaturalMinor);
        let major_sel = KeySelection::for_major_key(*key);
        let minor_sel = KeySelection::for_minor_key(*key);
        for n in Note::all().iter() {
            assert_eq!(major.contains(n), major_sel.is_note_enabled(*n));
            assert_eq!(minor.contains(n), minor_sel.is_note_enabled(*n));
        }
    }
}

#[test]
fn common_progressions_are_diatonic() {
    // law: every chord of every common progression fits the major key
    let theory = StandardMusicTheory::new();
    for key in Note::all().iter() {
        let selection = KeySelection::for_major_key(*key);
        let progressions = theory.get_common_progressions(*key);
        assert_eq!(progressions.len(), 4);
        for progression in &progressions {
            for chord in progression {
                assert!(theory.chord_fits_key(chord, &selection));
            }
        }
    }
    let in_c = theory.get_common_progressions(Note::C);
    let symbols: Vec<String> = in_c[0].iter().map(|c| c.symbol()).collect();
    assert_eq!(symbols, vec!["C", "G", "Am", "F"]);
    let symbols: Vec<String> = in_c[1].iter().map(|c| c.symbol()).collect();
    assert_eq!(symbols, vec!["Dm7", "G7", "Cmaj7"]);
    let symbols: Vec<String> = in_c[2].iter().map(|c| c.symbol()).collect();
    assert_eq!(symbols, vec!["Am", "F", "C", "G"]);
    let symbols: Vec<String> = in_c[3].iter().map(|c| c.symbol()).collect();
    assert_eq!(symbols, vec!["C", "Am", "Dm", "G"]);
}

#[test]
fn chord_functions_by_degree() {
    let theory = StandardMusicTheory::new();
    let function_of = |root: Note| theory.chord_function(&Chord::new(root, ChordQuality::Major), Note::D);
    // degrees of D major: D E F# G A B C#
    assert_eq!(function_of(Note::D), ChordFunction::Tonic);
    assert_eq!(function_of(Note::E), ChordFunction::Subdominant);
    assert_eq!(function_of(Note::FSharp), ChordFunction::Tonic);
    assert_eq!(function_of(Note::G), ChordFunction::Subdominant);
    assert_eq!(function_of(Note::A), ChordFunction::Dominant);
    assert_eq!(function_of(Note::B), ChordFunction::Tonic);
    assert_eq!(function_of(Note::CSharp), ChordFunction::Dominant);
    assert_eq!(function_of(Note::C), ChordFunction::Chromatic);
    assert_eq!(function_of(Note::F), ChordFunction::Chromatic);
    // law: the key's tonic, relative minor, dominant and subdominant
    for key in Note::all().iter() {
        let f = |root: Note| theory.chord_function(&Chord::new(root, ChordQuality::Major), *key);
        assert_eq!(f(*key), ChordFunction::Tonic);
        assert_eq!(f(key.transpose(-3)), ChordFunction::Tonic);
        assert_eq!(f(CircleOfFifths::dominant(*key)), ChordFunction::Dominant);
        assert_eq!(f(CircleOfFifths::subdominant(*key)), ChordFunction::Subdominant);
    }
}
