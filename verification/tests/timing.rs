use polyphonica::timing::{BeatTracker, ClickType, DiscreteScheduler, Metronome, PatternPlayer, TimeSignature};

/// Milliseconds between beats at `tempo_bpm`.
fn beat_interval_ms(tempo_bpm: f64) -> u64 {
    (60000.0 / tempo_bpm) as u64
}

#[test]
fn test_discrete_scheduler_basic() {
    let mut scheduler = DiscreteScheduler::new(TimeSignature::new(4, 4));

    // Should not trigger when stopped
    assert!(!scheduler.should_trigger(beat_interval_ms(120.0)));
    assert_eq!(scheduler.current_beat(), 1);

    // Start and should trigger first beat immediately
    scheduler.start();
    assert!(scheduler.is_running());
    assert!(scheduler.should_trigger(beat_interval_ms(120.0)));

    // Advance beat
    scheduler.advance_beat(beat_interval_ms(120.0));
    assert_eq!(scheduler.current_beat(), 2);

    // Should not trigger again immediately
    assert!(!scheduler.should_trigger(beat_interval_ms(120.0)));
}

#[test]
fn test_discrete_scheduler_pause_resume() {
    let mut scheduler = DiscreteScheduler::new(TimeSignature::new(4, 4));

    scheduler.start();
    assert!(scheduler.is_running());

    scheduler.pause();
    assert!(!scheduler.is_running());

    scheduler.resume();
    assert!(scheduler.is_running());
}

#[test]
fn test_discrete_scheduler_beat_wrapping() {
    let mut scheduler = DiscreteScheduler::new(TimeSignature::new(3, 4));

    scheduler.start();

    // Test that beats wrap correctly from 3 back to 1
    assert_eq!(scheduler.current_beat(), 1);

    // Manually advance through several beats to test wrapping
    scheduler.advance_beat(beat_interval_ms(120.0));
    assert_eq!(scheduler.current_beat(), 2);

    scheduler.advance_beat(beat_interval_ms(120.0));
    assert_eq!(scheduler.current_beat(), 3);

    scheduler.advance_beat(beat_interval_ms(120.0));
    assert_eq!(scheduler.current_beat(), 1); // Should wrap back to 1

    scheduler.advance_beat(beat_interval_ms(120.0));
    assert_eq!(scheduler.current_beat(), 2);
}

#[test]
fn test_time_signature_change() {
    let mut scheduler = DiscreteScheduler::new(TimeSignature::new(4, 4));

    scheduler.start();
    scheduler.advance_beat(beat_interval_ms(120.0));
    scheduler.advance_beat(beat_interval_ms(120.0));
    scheduler.advance_beat(beat_interval_ms(120.0));
    assert_eq!(scheduler.current_beat(), 4);

    // Change to 3/4 - should reset to beat 1
    scheduler.set_time_signature(TimeSignature::new(3, 4));
    assert_eq!(scheduler.current_beat(), 1);
    assert_eq!(scheduler.time_signature().beats_per_measure, 3);
}

#[test]
fn test_metronome_creation() {
    let metronome = Metronome::new(TimeSignature::new(4, 4));
    assert_eq!(metronome.time_signature().beats_per_measure, 4);
    assert_eq!(metronome.time_signature().note_value, 4);
    assert!(!metronome.is_running());
    assert_eq!(metronome.current_beat(), 1);
}

#[test]
fn test_metronome_start_stop() {
    let mut metronome = Metronome::new(TimeSignature::new(4, 4));

    assert!(!metronome.is_running());

    metronome.start();
    assert!(metronome.is_running());

    metronome.stop();
    assert!(!metronome.is_running());
    assert_eq!(metronome.current_beat(), 1);
}

#[test]
fn test_metronome_first_beat_trigger() {
    let mut metronome = Metronome::new(TimeSignature::new(4, 4));
    metronome.start();

    // First beat should trigger immediately
    let event = metronome.poll_beat(beat_interval_ms(120.0)).expect("first beat is due at once");
    assert_eq!(event.beat_number, 1);
    assert!(event.accent); // First beat should be accented by default
    assert_eq!(event.click, ClickType::Cowbell); // the default accent sound
}

#[test]
fn test_metronome_accent_settings() {
    let mut metronome = Metronome::new(TimeSignature::new(4, 4));

    // Disable accent
    metronome.set_accent_first_beat(false);
    metronome.start();

    let event = metronome.poll_beat(beat_interval_ms(120.0)).unwrap();
    assert!(!event.accent); // Should not be accented

    // Re-enable accent
    metronome.set_accent_first_beat(true);
    metronome.stop();
    metronome.start();

    let event = metronome.poll_beat(beat_interval_ms(120.0)).unwrap();
    assert!(event.accent); // Should be accented again
}

#[test]
fn test_metronome_click_types() {
    let mut metronome = Metronome::new(TimeSignature::new(4, 4));
    metronome.set_click_type(ClickType::DigitalBeep);
    metronome.set_accent_click_type(ClickType::AcousticKick);
    metronome.start();

    // First beat (accented) should use accent sound
    let event = metronome.poll_beat(beat_interval_ms(120.0)).unwrap();
    assert_eq!(event.click, ClickType::AcousticKick);

    // Disable accent to test normal click
    metronome.set_accent_first_beat(false);
    metronome.stop();
    metronome.start();

    let event = metronome.poll_beat(beat_interval_ms(120.0)).unwrap();
    assert_eq!(event.click, ClickType::DigitalBeep);
}

#[test]
fn test_metronome_pause_resume() {
    let mut metronome = Metronome::new(TimeSignature::new(4, 4));
    metronome.start();

    // Trigger first beat
    let event = metronome.poll_beat(beat_interval_ms(120.0)).unwrap();
    assert_eq!(event.beat_number, 1);

    metronome.pause();
    assert!(!metronome.is_running());

    metronome.resume();
    assert!(metronome.is_running());

    // Should maintain beat position after resume
    assert_eq!(metronome.current_beat(), 2);
}

#[test]
fn test_metronome_time_signature_change() {
    let mut metronome = Metronome::new(TimeSignature::new(4, 4));

    metronome.set_time_signature(TimeSignature::new(3, 8));
    assert_eq!(metronome.time_signature().beats_per_measure, 3);
    assert_eq!(metronome.time_signature().note_value, 8);
}

#[test]
fn test_time_signature_creation() {
    let four_four = TimeSignature::new(4, 4);
    assert_eq!(four_four.beats_per_measure, 4);
    assert_eq!(four_four.note_value, 4);
    assert_eq!(four_four.display(), "4/4");
}

#[test]
fn test_click_type_categorization() {
    assert!(ClickType::WoodBlock.is_synthetic());
    assert!(!ClickType::AcousticKick.is_synthetic());

    let synthetic = ClickType::synthetic_sounds();
    assert!(synthetic.contains(&ClickType::WoodBlock));
    assert!(!synthetic.contains(&ClickType::AcousticKick));

    let drums = ClickType::drum_samples();
    assert!(!drums.contains(&ClickType::WoodBlock));
    assert!(drums.contains(&ClickType::AcousticKick));
}

#[test]
fn stopped_or_paused_metronome_is_silent() {
    let mut metronome = Metronome::new(TimeSignature::new(4, 4));
    assert!(metronome.poll_beat(500).is_none());
    metronome.start();
    assert!(metronome.poll_beat(500).is_some());
    // the next beat is half a second away
    assert!(metronome.poll_beat(500).is_none());
    metronome.pause();
    assert!(metronome.poll_beat(0).is_none());
    assert_eq!(metronome.current_beat(), 2);
    metronome.stop();
    assert_eq!(metronome.current_beat(), 1);
}

#[test]
fn beats_wrap_and_accent_only_the_downbeat() {
    // law: with a zero interval every poll is due; beats count 1..=n and wrap
    let mut metronome = Metronome::new(TimeSignature::new(3, 4));
    metronome.start();
    let mut numbers = Vec::new();
    let mut accents = Vec::new();
    for _ in 0..7 {
        let trigger = metronome.poll_beat(0).unwrap();
        numbers.push(trigger.beat_number);
        accents.push(trigger.accent);
        assert_eq!(
            trigger.click,
            if trigger.accent { ClickType::Cowbell } else { ClickType::WoodBlock }
        );
    }
    assert_eq!(numbers, vec![1, 2, 3, 1, 2, 3, 1]);
    assert_eq!(accents, vec![true, false, false, true, false, false, true]);
}

#[test]
fn time_signature_change_resets_the_beat() {
    let mut scheduler = DiscreteScheduler::new(TimeSignature::new(4, 4));
    scheduler.start();
    scheduler.advance_beat(0);
    // the same signature again keeps the position
    scheduler.set_time_signature(TimeSignature::new(4, 4));
    assert_eq!(scheduler.current_beat(), 2);
    scheduler.stop();
    assert!(!scheduler.is_running());
    assert_eq!(scheduler.current_beat(), 1);
    assert!(!scheduler.should_trigger(0));
}

#[test]
fn common_signatures_and_click_lists() {
    let signatures = TimeSignature::common_signatures();
    assert_eq!(signatures.len(), 8);
    for (name, signature) in &signatures {
        assert_eq!(signature.display(), *name);
    }
    assert_eq!(TimeSignature::new(12, 8).display(), "12/8");
    assert_eq!(TimeSignature::new(255, 16).display(), "255/16");
    assert_eq!(TimeSignature::new(0, 0).display(), "0/0");
    // law: every click type is either synthetic or a drum sample
    let all = ClickType::all();
    assert_eq!(all.len(), ClickType::synthetic_sounds().len() + ClickType::drum_samples().len());
    for click in &all {
        assert_eq!(click.is_synthetic(), ClickType::synthetic_sounds().contains(click));
        assert_eq!(!click.is_synthetic(), ClickType::drum_samples().contains(click));
    }
    assert_eq!(ClickType::WoodBlock.name(), "Wood Block");
}

#[test]
fn pattern_player_is_a_quiet_stand_in() {
    let mut player = PatternPlayer::new();
    player.start();
    assert!(!player.is_running());
    assert_eq!(player.current_beat(), 1);
    assert_eq!(player.time_signature(), TimeSignature::new(4, 4));
    player.set_time_signature(TimeSignature::new(3, 4));
    assert_eq!(player.time_signature(), TimeSignature::new(4, 4));
}

/// Clock reading `ms` milliseconds in, in nanoseconds.
fn reading_ms(ms: u128) -> u128 {
    ms * 1_000_000
}

#[test]
fn test_discrete_scheduler_timing() {
    let mut scheduler = DiscreteScheduler::new(TimeSignature::new(4, 4));
    let interval = beat_interval_ms(240.0); // 250ms per beat

    scheduler.start();

    // First beat should trigger immediately
    assert!(scheduler.should_trigger_at(reading_ms(0), interval));
    scheduler.advance_beat_at(reading_ms(0), interval);

    // Should not trigger immediately after advance
    assert!(!scheduler.should_trigger_at(reading_ms(0), interval));

    // 260ms later the next beat is due
    assert!(scheduler.should_trigger_at(reading_ms(260), interval));
    scheduler.advance_beat_at(reading_ms(260), interval);
    assert_eq!(scheduler.current_beat(), 3);
}

#[test]
fn test_metronome_beat_progression() {
    let mut metronome = Metronome::new(TimeSignature::new(3, 4));
    metronome.start();
    let interval = beat_interval_ms(240.0);

    // Trigger first beat
    let first = metronome.poll_beat_at(reading_ms(0), interval).expect("first beat");
    assert_eq!(first.beat_number, 1);
    assert!(first.accent);

    // Should not trigger again immediately
    assert!(metronome.poll_beat_at(reading_ms(1), interval).is_none());

    // 260ms later (250ms at 240 BPM)
    let next = metronome.poll_beat_at(reading_ms(260), interval).expect("second beat");
    assert_eq!(next.beat_number, 2); // Should be beat 2, not 3
    assert!(!next.accent); // Not first beat
}

#[test]
fn beat_is_due_exactly_at_its_reading() {
    let mut scheduler = DiscreteScheduler::new(TimeSignature::new(4, 4));
    scheduler.start();
    assert!(scheduler.should_trigger_at(reading_ms(10), 500));
    scheduler.advance_beat_at(reading_ms(10), 500);
    assert!(!scheduler.should_trigger_at(reading_ms(510) - 1, 500));
    assert!(scheduler.should_trigger_at(reading_ms(510), 500));
}

#[test]
fn pause_moves_the_next_beat_by_the_pause_length() {
    let mut scheduler = DiscreteScheduler::new(TimeSignature::new(4, 4));
    scheduler.start();
    assert!(scheduler.should_trigger_at(reading_ms(0), 500));
    scheduler.advance_beat_at(reading_ms(0), 500);
    // Paused 100ms before the beat, for 1000ms
    scheduler.pause_at(reading_ms(400));
    assert!(!scheduler.should_trigger_at(reading_ms(600), 500));
    scheduler.resume_at(reading_ms(1400));
    // The beat is still 100ms away after resuming
    assert!(!scheduler.should_trigger_at(reading_ms(1499), 500));
    assert!(scheduler.should_trigger_at(reading_ms(1500), 500));
    assert_eq!(scheduler.current_beat(), 2);
}

#[test]
fn beat_tracker_keeps_the_last_thirty_two_beats() {
    let mut tracker: BeatTracker<u32> = BeatTracker::new();
    assert_eq!(tracker.get_current_beat(), (1, false));
    assert!(tracker.current_event().is_none());
    for i in 0..40u32 {
        tracker.record_beat((i % 4 + 1) as u8, i % 4 == 0, i);
    }
    assert_eq!(tracker.history().len(), 32);
    assert_eq!(tracker.history()[0].2, 8);
    assert_eq!(tracker.get_current_beat(), (4, false));
    assert_eq!(tracker.current_event(), Some(&39));
    tracker.record_beat(1, true, 40);
    assert_eq!(tracker.get_current_beat(), (1, true));
    assert_eq!(tracker.history()[0].2, 9);
    assert_eq!(tracker.history().len(), 32);
}
