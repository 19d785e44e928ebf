use std::time::Duration;

use polyphonica::patterns::{
    DifficultyClass, NotationStep, PatternGenre, PatternMetadata, PatternStats, difficulty_class,
    complexity_score, next_pattern_beat, parse_notation, tempo_ranges_overlap,
};
use polyphonica::timing::ClickType;
use polyphonica::samples::{DrumType, SampleCategory};

#[test]
fn test_pattern_genre_display() {
    assert_eq!(PatternGenre::Rock.display_name(), "Rock");
    assert_eq!(PatternGenre::Jazz.display_name(), "Jazz");
    assert_eq!(PatternGenre::Electronic.display_name(), "Electronic");
}

#[test]
fn test_sample_category_display() {
    assert_eq!(SampleCategory::Drums.display_name(), "Drums");
    assert_eq!(SampleCategory::SFX.display_name(), "Sound Effects");
}

#[test]
fn genre_and_category_lists() {
    let genres = PatternGenre::all();
    for (i, a) in genres.iter().enumerate() {
        for b in &genres[i + 1..] {
            assert_ne!(a, b);
        }
    }
    assert!(genres.contains(&PatternGenre::Latin));
    let categories = SampleCategory::all();
    assert!(categories.contains(&SampleCategory::SFX));
    for (i, a) in categories.iter().enumerate() {
        for b in &categories[i + 1..] {
            assert_ne!(a, b);
        }
    }
    assert_eq!(DrumType::Kick.to_string(), "kick");
}

#[test]
fn notation_steps() {
    let steps = parse_notation("K.S.k-s h?");
    assert_eq!(
        steps,
        vec![
            NotationStep::Kick,
            NotationStep::HiHat,
            NotationStep::Snare,
            NotationStep::HiHat,
            NotationStep::Kick,
            NotationStep::Rest,
            NotationStep::Snare,
            NotationStep::Rest,
            NotationStep::HiHat,
            NotationStep::Unknown('?'),
        ]
    );
    assert!(parse_notation("").is_empty());
    // one step per character, multi-byte characters included
    assert_eq!(parse_notation("\u{e9}K"), vec![NotationStep::Unknown('\u{e9}'), NotationStep::Kick]);
}

#[test]
fn pattern_stats_lifecycle() {
    let mut stats = PatternStats::new();
    assert_eq!(stats.loops_completed, 0);
    assert_eq!(stats.beats_played, 0);
    assert!(stats.playback_duration().is_none());
    let start = std::time::Instant::now();
    stats.start_time = Some(start);
    stats.last_beat_time = Some(start + Duration::from_millis(750));
    assert_eq!(stats.playback_duration(), Some(Duration::from_millis(750)));
    stats.loops_completed = 3;
    stats.beats_played = 12;
    stats.reset();
    assert_eq!(stats.loops_completed, 0);
    assert_eq!(stats.beats_played, 0);
    assert!(stats.playback_duration().is_none());
}

#[test]
fn pattern_metadata_defaults() {
    let metadata = PatternMetadata::default();
    assert_eq!(metadata.genre, PatternGenre::Custom);
    assert_eq!(metadata.difficulty, 1);
    assert!(metadata.description.is_empty());
    assert!(metadata.tags.is_empty());
    assert!(metadata.author.is_none());
    assert!(metadata.custom_fields.is_empty());
}

#[test]
fn difficulty_classes_split_the_scale() {
    assert_eq!(difficulty_class(1), DifficultyClass::Beginner);
    assert_eq!(difficulty_class(2), DifficultyClass::Beginner);
    assert_eq!(difficulty_class(3), DifficultyClass::Intermediate);
    assert_eq!(difficulty_class(4), DifficultyClass::Advanced);
    assert_eq!(difficulty_class(5), DifficultyClass::Advanced);
}

#[test]
fn tempo_range_overlap_cases() {
    // 120-140 BPM against patterns' recommended ranges
    assert!(tempo_ranges_overlap((80, 140), 120, 140));
    assert!(tempo_ranges_overlap((140, 180), 120, 140));
    assert!(tempo_ranges_overlap((60, 120), 120, 140));
    assert!(!tempo_ranges_overlap((60, 90), 120, 140));
    assert!(!tempo_ranges_overlap((141, 200), 120, 140));
}

#[test]
fn pattern_beats_loop_back_to_the_first() {
    assert_eq!(next_pattern_beat(0, 4), (1, false));
    assert_eq!(next_pattern_beat(2, 4), (3, false));
    assert_eq!(next_pattern_beat(3, 4), (0, true));
    assert_eq!(next_pattern_beat(0, 1), (0, true));
}

#[test]
fn test_pattern_stats() {
    let stats = PatternStats::new();

    assert_eq!(stats.beats_played, 0);
    assert_eq!(stats.loops_completed, 0);
    assert!(stats.start_time.is_none());
}

#[test]
fn test_pattern_complexity() {
    // Beats: kick (accented), snare, closed hi-hat
    let beats = vec![
        (vec![ClickType::AcousticKick], true),
        (vec![ClickType::AcousticSnare], false),
        (vec![ClickType::HiHatClosed], false),
    ];

    let score = complexity_score(&beats);
    assert!(score > 0);
    // three beats, three different sounds, one accent
    assert_eq!(score, 3 * 2 + 3 * 5 + 1);
}
