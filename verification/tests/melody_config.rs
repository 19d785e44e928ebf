use polyphonica::melody::{ChordQuality, ComplexityLevel, ConfigPreset, UiConfig};

#[test]
fn test_complexity_levels() {
    let beginner = ComplexityLevel::Beginner;
    let beginner_qualities = beginner.allowed_qualities();
    assert_eq!(beginner_qualities.len(), 2); // Only Major and Minor

    let expert = ComplexityLevel::Expert;
    let expert_qualities = expert.allowed_qualities();
    assert!(expert_qualities.len() > 5); // Many more qualities
}

#[test]
fn test_chord_quality_all() {
    let all_qualities = ChordQuality::all_qualities();
    assert!(all_qualities.contains(&ChordQuality::Major));
    assert!(all_qualities.contains(&ChordQuality::Dominant7));
    assert!(all_qualities.contains(&ChordQuality::Diminished));
    assert!(all_qualities.len() >= 10);
}

#[test]
fn complexity_levels_grow() {
    // law: each level allows every quality of the levels below it
    let levels = [
        ComplexityLevel::Beginner,
        ComplexityLevel::Intermediate,
        ComplexityLevel::Advanced,
        ComplexityLevel::Expert,
    ];
    for (i, lower) in levels.iter().enumerate() {
        for higher in &levels[i..] {
            let allowed = higher.allowed_qualities();
            for q in lower.allowed_qualities() {
                assert!(allowed.contains(&q));
            }
        }
    }
    assert_eq!(ComplexityLevel::Intermediate.allowed_qualities().len(), 5);
    assert_eq!(ComplexityLevel::Advanced.allowed_qualities().len(), 8);
    assert_eq!(ComplexityLevel::Expert.allowed_qualities(), ChordQuality::all_qualities());
    assert_eq!(ComplexityLevel::Beginner.description(), "Simple major and minor chords");
}

#[test]
fn all_qualities_are_distinct() {
    let all = ChordQuality::all_qualities();
    assert_eq!(all.len(), 10);
    for (i, a) in all.iter().enumerate() {
        for b in &all[i + 1..] {
            assert_ne!(a, b);
        }
    }
}

#[test]
fn presets_and_ui_defaults() {
    let presets = ConfigPreset::all();
    assert_eq!(
        presets,
        vec![ConfigPreset::Default, ConfigPreset::Jazz, ConfigPreset::Pop, ConfigPreset::Practice]
    );
    assert_eq!(ConfigPreset::Jazz.name(), "Jazz");
    assert_eq!(ConfigPreset::Pop.name(), "Pop/Rock");
    assert_eq!(ConfigPreset::Default.description(), "Balanced settings for general use");
    let ui = UiConfig::default();
    assert!(ui.show_chord_symbols);
    assert!(ui.show_key_center);
    assert!(!ui.show_chord_notation);
    assert!(!ui.show_roman_numerals);
    assert!(!ui.show_chord_functions);
}
