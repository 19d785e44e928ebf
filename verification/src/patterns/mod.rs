//! Drum patterns: genres, metadata, the pattern library, playback
//! statistics, the step notation and the catalog's text forms.

pub mod io;
pub mod library;
pub mod notation;
pub mod state;
pub mod types;

pub use io::{
    PatternIoError, click_type_to_sample_name, infer_genre, parse_sample_name, parse_time_signature,
    time_signature_text,
};
pub use library::{PatternInfo, PatternLibrary};
pub use notation::{NotationStep, parse_notation};
pub use state::{PatternStats, next_pattern_beat};
pub use types::{
    DifficultyClass, PatternGenre, PatternMetadata, TempoRangeCheck, check_tempo_range,
    clamp_difficulty, complexity_score, difficulty_class, tempo_ranges_overlap,
};
