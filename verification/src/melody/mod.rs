//! Melody assistant: notes, chords, keys, music theory and chord timelines.

pub mod config;
pub mod generator;
pub mod state;
pub mod theory;
pub mod timeline;
pub mod types;

pub use config::{ColorScheme, ComplexityLevel, ConfigPreset, TimelineStyle, UiConfig};
pub use generator::SystemRandomizer;
pub use state::{ChordSource, MelodyAssistantState};
pub use theory::{ChordFunction, CircleOfFifths, ScaleType, StandardMusicTheory, VoiceLeading};
pub use timeline::{ChordTimeline, MovingTimeline, TimelineDisplayData};
pub use types::{Chord, ChordEvent, ChordQuality, KeySelection, Note, TimelineConfig};
