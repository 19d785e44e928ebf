use std::collections::HashMap;

use polyphonica::patterns::{PatternGenre, PatternInfo, PatternLibrary, PatternMetadata};

fn info(
    name: &str,
    display_name: &str,
    tempo_range: (u32, u32),
    genre: PatternGenre,
    difficulty: u8,
    description: &str,
    tags: &[&str],
) -> PatternInfo {
    PatternInfo {
        name: name.to_string(),
        display_name: display_name.to_string(),
        tempo_range,
        metadata: PatternMetadata {
            genre,
            difficulty,
            description: description.to_string(),
            tags: tags.iter().map(|t| t.to_string()).collect(),
            author: None,
            custom_fields: HashMap::new(),
        },
    }
}

/// The four default patterns' descriptions, each carried as its name.
fn default_library() -> PatternLibrary<&'static str> {
    let mut library = PatternLibrary::new();
    library.add_pattern(
        info(
            "basic_rock",
            "Basic Rock Beat",
            (80, 140),
            PatternGenre::Rock,
            2,
            "Classic rock beat with kick on 1 and 3, snare on 2 and 4",
            &["rock", "basic", "4/4"],
        ),
        "basic_rock",
    );
    library.add_pattern(
        info(
            "shuffle",
            "Shuffle Beat",
            (60, 120),
            PatternGenre::Blues,
            3,
            "Swung shuffle rhythm with triplet feel",
            &["shuffle", "blues", "swing"],
        ),
        "shuffle",
    );
    library.add_pattern(
        info(
            "ballad",
            "Ballad Beat",
            (60, 90),
            PatternGenre::Pop,
            1,
            "Simple ballad rhythm with emphasis on backbeats",
            &["ballad", "pop", "simple"],
        ),
        "ballad",
    );
    library.add_pattern(
        info(
            "waltz",
            "Waltz Beat",
            (90, 180),
            PatternGenre::Classical,
            2,
            "Traditional 3/4 waltz with strong downbeat",
            &["waltz", "3/4", "classical"],
        ),
        "waltz",
    );
    library
}

#[test]
fn test_pattern_library_creation() {
    let library: PatternLibrary<&str> = PatternLibrary::new();
    assert_eq!(library.count(), 0);

    let library_with_defaults = default_library();
    assert!(library_with_defaults.count() > 0);
}

#[test]
fn test_pattern_library_operations() {
    let mut library = PatternLibrary::new();
    library.add_pattern(
        info("basic_rock", "Basic Rock", (80, 140), PatternGenre::Rock, 2, "", &[]),
        "basic_rock",
    );

    assert_eq!(library.count(), 1);
    assert!(library.get_pattern("basic_rock").is_some());
}

#[test]
fn test_genre_filtering() {
    let library = default_library();
    let rock_patterns = library.patterns_by_genre(&PatternGenre::Rock);
    assert!(!rock_patterns.is_empty());
}

#[test]
fn library_test_tempo_filtering() {
    let library = default_library();
    let patterns_100bpm = library.patterns_for_tempo(100);
    assert!(!patterns_100bpm.is_empty());
    assert_eq!(patterns_100bpm, vec![&"basic_rock", &"shuffle", &"waltz"]);
}

#[test]
fn test_pattern_search() {
    let library = default_library();
    let rock_results = library.search_patterns("rock");
    assert!(!rock_results.is_empty());

    let shuffle_results = library.search_patterns("shuffle");
    assert!(!shuffle_results.is_empty());
}

#[test]
fn library_test_difficulty_filtering() {
    let library = default_library();
    let beginner_patterns = library.patterns_by_difficulty(1);
    assert!(!beginner_patterns.is_empty());
}

#[test]
fn read_after_write() {
    // law: the pattern added under a name is what reading that name gives back
    let mut library = default_library();
    assert_eq!(library.get_pattern("waltz"), Some(&"waltz"));
    assert_eq!(library.get_pattern("polka"), None);
    library.add_pattern(
        info("waltz", "Fast Waltz", (150, 200), PatternGenre::Classical, 4, "", &[]),
        "fast waltz",
    );
    assert_eq!(library.count(), 4);
    assert_eq!(library.get_pattern("waltz"), Some(&"fast waltz"));
    assert_eq!(library.get_pattern("shuffle"), Some(&"shuffle"));
    // the replaced pattern keeps its place, and its name is listed again in the indexes
    assert_eq!(library.all_patterns(), vec![&"basic_rock", &"shuffle", &"ballad", &"fast waltz"]);
    assert_eq!(library.patterns_by_genre(&PatternGenre::Classical), vec![&"fast waltz", &"fast waltz"]);
    assert_eq!(library.patterns_by_difficulty(2), vec![&"basic_rock", &"fast waltz"]);
    assert_eq!(library.patterns_by_difficulty(4), vec![&"fast waltz"]);
    library.clear();
    assert_eq!(library.count(), 0);
    assert!(library.patterns_by_genre(&PatternGenre::Rock).is_empty());
}

#[test]
fn search_ignores_case_and_checks_every_field() {
    let library = default_library();
    assert_eq!(library.search_patterns("ROCK"), vec![&"basic_rock"]);
    // display names
    assert_eq!(library.search_patterns("beat").len(), 4);
    // descriptions
    assert_eq!(library.search_patterns("triplet"), vec![&"shuffle"]);
    // tags
    assert_eq!(library.search_patterns("3/4"), vec![&"waltz"]);
    assert_eq!(library.search_patterns("4/4"), vec![&"basic_rock"]);
    assert!(library.search_patterns("polka").is_empty());
    // the empty query matches everything
    assert_eq!(library.search_patterns("").len(), 4);
}

#[test]
fn tempo_bounds_are_inclusive() {
    let library = default_library();
    assert_eq!(library.patterns_for_tempo(60), vec![&"shuffle", &"ballad"]);
    assert_eq!(library.patterns_for_tempo(180), vec![&"waltz"]);
    assert!(library.patterns_for_tempo(181).is_empty());
    assert!(library.patterns_for_tempo(0).is_empty());
}
