use polyphonica::EnvelopePhase;
use polyphonica::audio::{
    AccentContext, AudioStreamBuilder, PolyphonicaStreamConfig, accent_contrast, noise_level, pick_voice,
};
use polyphonica::config::app_config::{
    default_accent_first_beat, default_click_type, default_color_scheme, default_config_version,
    default_loop_patterns, default_theme, default_time_signature,
};
use polyphonica::melody::generator::{lcg_output, lcg_step};
use polyphonica::timing::{ClickType, TimeSignature};

#[test]
fn stream_config_defaults() {
    let config = PolyphonicaStreamConfig::default();
    assert_eq!(config.sample_rate, 44100);
    assert_eq!(config.channels, 2);
    assert!(config.buffer_size.is_none());
}

#[test]
fn stream_builder_settings() {
    let builder = AudioStreamBuilder::new()
        .with_sample_rate(48000)
        .with_channels(1)
        .with_buffer_size(256)
        .with_device_name(String::from("USB Audio"));
    let config = builder.config();
    assert_eq!(config.sample_rate, 48000);
    assert_eq!(config.channels, 1);
    assert_eq!(config.buffer_size, Some(256));
    let default = AudioStreamBuilder::default().config();
    assert_eq!(default.sample_rate, 44100);
    assert_eq!(default.channels, 2);
    assert_eq!(default.buffer_size, None);
}

#[test]
fn configuration_defaults() {
    assert_eq!(default_config_version(), "1.0");
    assert_eq!(default_time_signature(), TimeSignature::new(4, 4));
    assert_eq!(default_click_type(), ClickType::WoodBlock);
    assert!(default_accent_first_beat());
    assert!(default_loop_patterns());
    assert_eq!(default_theme(), "default");
    assert_eq!(default_color_scheme(), "default");
}

#[test]
fn generator_steps() {
    assert_eq!(lcg_step(12345), 12345u32.wrapping_mul(1103515245).wrapping_add(12345));
    assert_eq!(lcg_step(0), 12345);
    assert_eq!(lcg_step(u32::MAX), u32::MAX.wrapping_mul(1103515245).wrapping_add(12345));
    assert_eq!(lcg_output(0x1234_5678), 0x1234);
    assert_eq!(lcg_output(u32::MAX), 0xFFFF);
}

#[test]
fn plain_enums() {
    assert_ne!(AccentContext::Metronome, AccentContext::Performance);
    assert_ne!(EnvelopePhase::Attack, EnvelopePhase::Finished);
}

#[test]
fn noise_levels_are_deterministic() {
    assert_eq!(noise_level(0), 12345);
    assert_eq!(noise_level(1), 32422);
    assert_eq!(noise_level(1000), 2561);
    assert_eq!(noise_level(u32::MAX), 25036);
    assert_eq!(noise_level(1000), noise_level(1000));
}

#[test]
fn new_notes_take_the_first_free_voice_else_the_oldest() {
    assert_eq!(pick_voice(&vec![]), None);
    assert_eq!(pick_voice(&vec![(true, 3), (false, 9), (false, 1)]), Some(1));
    assert_eq!(pick_voice(&vec![(true, 7), (true, 2), (true, 5)]), Some(1));
    assert_eq!(pick_voice(&vec![(true, 4), (true, 4)]), Some(0));
    assert_eq!(pick_voice(&vec![(false, 0)]), Some(0));
}

#[test]
fn accents_contrast_drums() {
    assert_eq!(accent_contrast(ClickType::AcousticKick), Some(ClickType::AcousticSnare));
    for c in [ClickType::AcousticSnare, ClickType::HiHatClosed, ClickType::HiHatOpen, ClickType::RimShot, ClickType::Stick] {
        assert_eq!(accent_contrast(c), Some(ClickType::AcousticKick));
    }
    for c in ClickType::synthetic_sounds() {
        assert_eq!(accent_contrast(c), None);
    }
}
