use polyphonica::timing::TimeSignature;
use polyphonica::visualization::beat_display::get_legacy_beat_visuals;
use polyphonica::visualization::{
    BeatColor, BeatColorScheme, BeatDisplay, BeatSymbol, BeatVisual, PatternBeats,
    VisualizationMode,
};

/// What a beat tracker reports before any beat was recorded.
const NO_BEAT_YET: (u8, bool) = (1, false);

#[test]
fn test_beat_display_creation() {
    let time_sig = TimeSignature::new(4, 4);
    let display = BeatDisplay::new(time_sig);
    assert_eq!(display.time_signature(), time_sig);
    assert_eq!(display.mode(), VisualizationMode::Metronome);
}

#[test]
fn test_mode_switching() {
    let mut display = BeatDisplay::new(TimeSignature::new(4, 4));
    assert_eq!(display.mode(), VisualizationMode::Metronome);

    display.set_mode(VisualizationMode::Pattern);
    assert_eq!(display.mode(), VisualizationMode::Pattern);
}

#[test]
fn test_color_scheme_defaults() {
    let scheme = BeatColorScheme::default();
    assert_eq!(scheme.current_accent, (255, 255, 0)); // Yellow
    assert_eq!(scheme.current, (0, 255, 0)); // Green
}

#[test]
fn test_symbol_representation() {
    let display = BeatDisplay::new(TimeSignature::new(4, 4));
    assert_eq!(display.get_symbol_char(BeatSymbol::FilledCircle), '\u{25CF}');
    assert_eq!(display.get_symbol_char(BeatSymbol::EmptyCircle), '\u{25CB}');
}

#[test]
fn test_visual_state_generation() {
    let display = BeatDisplay::new(TimeSignature::new(4, 4));

    let state = display.generate_visual_state(NO_BEAT_YET, None, false, true);

    assert_eq!(state.beats.len(), 4);
    assert_eq!(state.time_signature.beats_per_measure, 4);
}

fn visual(beat_number: u8, is_current: bool, is_accent: bool) -> BeatVisual {
    let color = match (is_current, is_accent) {
        (true, true) => BeatColor::CurrentAccent,
        (true, false) => BeatColor::Current,
        (false, true) => BeatColor::Accent,
        (false, false) => BeatColor::Regular,
    };
    let symbol = if is_accent { BeatSymbol::FilledCircle } else { BeatSymbol::EmptyCircle };
    BeatVisual { beat_number, is_current, is_accent, color, symbol }
}

#[test]
fn metronome_mode_shows_the_last_beat() {
    let display = BeatDisplay::new(TimeSignature::new(3, 4));
    // stopped: nothing current, beat 1 accented
    let state = display.generate_visual_state((2, false), None, false, true);
    assert_eq!(state.beats, vec![visual(1, false, true), visual(2, false, false), visual(3, false, false)]);
    // playing beat 2 (unaccented)
    let state = display.generate_visual_state((2, false), None, true, true);
    assert_eq!(state.beats, vec![visual(1, false, true), visual(2, true, false), visual(3, false, false)]);
    // playing beat 1 as triggered without accent, first-beat accents off
    let state = display.generate_visual_state((1, false), None, true, false);
    assert_eq!(state.beats, vec![visual(1, true, false), visual(2, false, false), visual(3, false, false)]);
    // playing beat 1 accented
    let state = display.generate_visual_state((1, true), None, true, true);
    assert_eq!(state.beats[0], visual(1, true, true));
    // no beat recorded (0) while playing falls back to beat 1
    let state = display.generate_visual_state((0, false), None, true, true);
    assert_eq!(state.beats[0], visual(1, true, false));
}

#[test]
fn pattern_mode_follows_the_pattern() {
    let mut display = BeatDisplay::new(TimeSignature::new(4, 4));
    display.set_mode(VisualizationMode::Pattern);
    let loaded = Some(PatternBeats {
        time_signature: TimeSignature::new(3, 4),
        beats: vec![(1, true), (1, false), (2, false), (3, true)],
    });
    let state = display.generate_visual_state((2, true), Some(&loaded), true, true);
    assert_eq!(state.time_signature, TimeSignature::new(3, 4));
    assert_eq!(state.beats, vec![visual(1, false, true), visual(2, true, true), visual(3, false, true)]);
    // a pattern player without a pattern: own signature, no accents but the current beat's
    let state = display.generate_visual_state((3, false), Some(&None), true, true);
    assert_eq!(state.time_signature, TimeSignature::new(4, 4));
    assert_eq!(
        state.beats,
        vec![visual(1, false, false), visual(2, false, false), visual(3, true, false), visual(4, false, false)]
    );
    // no pattern player at all: beat 1 is shown as current
    let state = display.generate_visual_state((3, false), None, true, true);
    assert_eq!(state.beats[0], visual(1, true, false));
    assert!(!state.beats[2].is_current);
}

#[test]
fn at_most_one_current_beat() {
    // law: at most one beat is current, none while stopped
    for mode in [VisualizationMode::Metronome, VisualizationMode::Pattern] {
        let mut display = BeatDisplay::new(TimeSignature::new(7, 8));
        display.set_mode(mode);
        for beat in 0..=9u8 {
            for playing in [false, true] {
                for accent in [false, true] {
                    let state = display.generate_visual_state((beat, accent), Some(&None), playing, true);
                    let current = state.beats.iter().filter(|b| b.is_current).count();
                    assert!(current <= 1);
                    if !playing {
                        assert_eq!(current, 0);
                    }
                    for (i, b) in state.beats.iter().enumerate() {
                        assert_eq!(b.beat_number as usize, i + 1);
                    }
                }
            }
        }
    }
}

#[test]
fn cache_is_kept_until_invalidated() {
    let mut display = BeatDisplay::new(TimeSignature::new(4, 4));
    let first = display.get_visual_state((2, false), None, true, true);
    assert!(first.beats[1].is_current);
    // the cache answers until it is invalidated
    let cached = display.get_visual_state((3, false), None, true, true);
    assert_eq!(cached.beats, first.beats);
    display.invalidate_cache();
    let fresh = display.get_visual_state((3, false), None, true, true);
    assert!(fresh.beats[2].is_current);
    // a new time signature invalidates too
    display.set_time_signature(TimeSignature::new(2, 4));
    let fresh = display.get_visual_state((3, false), None, true, true);
    assert_eq!(fresh.beats.len(), 2);
}

#[test]
fn colors_and_legacy_tuples() {
    let mut display = BeatDisplay::new(TimeSignature::new(4, 4));
    assert_eq!(display.get_color_rgb(BeatColor::Accent), (192, 192, 192));
    assert_eq!(display.get_color_rgb(BeatColor::Regular), (128, 128, 128));
    let scheme = BeatColorScheme {
        current_accent: (1, 2, 3),
        current: (4, 5, 6),
        accent: (7, 8, 9),
        regular: (10, 11, 12),
    };
    display.set_color_scheme(scheme);
    assert_eq!(display.get_color_rgb(BeatColor::Current), (4, 5, 6));

    let tuples = get_legacy_beat_visuals((1, true), None, TimeSignature::new(2, 4), true, true, false);
    assert_eq!(
        tuples,
        vec![(1, true, true, (255, 255, 0), '\u{25CF}'), (2, false, false, (128, 128, 128), '\u{25CB}')]
    );
}
