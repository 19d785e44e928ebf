//! Beat visualization: which beats of the measure are shown as current or accented.

pub mod beat_display;

pub use beat_display::{
    BeatColor, BeatColorScheme, BeatDisplay, BeatSymbol, BeatVisual, BeatVisuals, PatternBeats,
    VisualizationMode,
};
