use polyphonica::patterns::{
    PatternGenre, PatternIoError, click_type_to_sample_name, infer_genre, parse_sample_name,
    parse_time_signature, time_signature_text,
};
use polyphonica::timing::{ClickType, TimeSignature};

#[test]
fn test_sample_name_conversion() {
    assert_eq!(parse_sample_name("kick").unwrap(), ClickType::AcousticKick);
    assert_eq!(parse_sample_name("hihat_closed").unwrap(), ClickType::HiHatClosed);
    assert!(parse_sample_name("invalid").is_err());
}

#[test]
fn test_time_signature_parsing() {
    let time_sig = parse_time_signature("3/4").unwrap();
    assert_eq!(time_sig.beats_per_measure, 3);
    assert_eq!(time_sig.note_value, 4);
}

#[test]
fn malformed_time_signatures_are_refused() {
    for text in ["", "4", "4/", "/4", "4/4/4", "a/4", "4/b", "256/4", "-1/4", " 4/4", "4 /4", "4//4"] {
        match parse_time_signature(text) {
            Err(PatternIoError::InvalidTimeSignature(t)) => assert_eq!(t, text),
            other => panic!("{:?} gave {:?}", text, other),
        }
    }
}

#[test]
fn time_signature_numbers_read_like_u8() {
    assert_eq!(parse_time_signature("+6/8").unwrap(), TimeSignature::new(6, 8));
    assert_eq!(parse_time_signature("007/008").unwrap(), TimeSignature::new(7, 8));
    assert_eq!(parse_time_signature("255/0").unwrap(), TimeSignature::new(255, 0));
}

#[test]
fn time_signatures_round_trip_through_text() {
    for (beats, note) in [(4u8, 4u8), (3, 4), (12, 8), (0, 0), (255, 128), (100, 10)] {
        let ts = TimeSignature::new(beats, note);
        let text = time_signature_text(ts);
        assert_eq!(text, format!("{}/{}", beats, note));
        assert_eq!(parse_time_signature(&text).unwrap(), ts);
    }
}

#[test]
fn sample_names_round_trip_for_drums() {
    for c in ClickType::drum_samples() {
        assert_eq!(parse_sample_name(&click_type_to_sample_name(c)).unwrap(), c);
    }
    assert_eq!(click_type_to_sample_name(ClickType::ElectroClick), "click");
    match parse_sample_name("click") {
        Err(PatternIoError::UnknownSampleType(name)) => assert_eq!(name, "click"),
        other => panic!("unexpected {:?}", other),
    }
}

#[test]
fn genres_are_read_from_names() {
    assert_eq!(infer_genre("Basic Rock Beat"), PatternGenre::Rock);
    assert_eq!(infer_genre("Medium SWING"), PatternGenre::Jazz);
    assert_eq!(infer_genre("Bossa Nova"), PatternGenre::Latin);
    assert_eq!(infer_genre("Funky"), PatternGenre::Funk);
    assert_eq!(infer_genre("Power Ballad"), PatternGenre::Pop);
    assert_eq!(infer_genre("Deep House"), PatternGenre::Electronic);
    assert_eq!(infer_genre("Waltz"), PatternGenre::Classical);
    assert_eq!(infer_genre("Something Else"), PatternGenre::Custom);
    // the first genre named wins
    assert_eq!(infer_genre("Jazz Rock"), PatternGenre::Rock);
}
