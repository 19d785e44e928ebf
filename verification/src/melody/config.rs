//! Melody assistant settings: complexity levels, display preferences and presets.

use vstd::prelude::*;
use super::types::ChordQuality;

verus! {

/// All chord qualities, in declaration order.
pub open spec fn all_quality_list() -> Seq<ChordQuality> {
    seq![
        ChordQuality::Major,
        ChordQuality::Minor,
        ChordQuality::Diminished,
        ChordQuality::Augmented,
        ChordQuality::Major7,
        ChordQuality::Minor7,
        ChordQuality::Dominant7,
        ChordQuality::Sus2,
        ChordQuality::Sus4,
        ChordQuality::MinorMajor7,
    ]
}

impl ChordQuality {
    /// All available chord qualities.
    pub fn all_qualities() -> (r: Vec<ChordQuality>)
        ensures
            r@ == all_quality_list(),
    {
        let r = vec![
            ChordQuality::Major,
            ChordQuality::Minor,
            ChordQuality::Diminished,
            ChordQuality::Augmented,
            ChordQuality::Major7,
            ChordQuality::Minor7,
            ChordQuality::Dominant7,
            ChordQuality::Sus2,
            ChordQuality::Sus4,
            ChordQuality::MinorMajor7,
        ];
        assert(r@ =~= all_quality_list());
        r
    }
}

/// Every chord quality appears once in the list of all qualities.
pub proof fn law_all_qualities_complete(q: ChordQuality)
    ensures
        all_quality_list().contains(q),
        all_quality_list().no_duplicates(),
{
    let l = all_quality_list();
    match q {
        ChordQuality::Major => assert(l[0] == q),
        ChordQuality::Minor => assert(l[1] == q),
        ChordQuality::Diminished => assert(l[2] == q),
        ChordQuality::Augmented => assert(l[3] == q),
        ChordQuality::Major7 => assert(l[4] == q),
        ChordQuality::Minor7 => assert(l[5] == q),
        ChordQuality::Dominant7 => assert(l[6] == q),
        ChordQuality::Sus2 => assert(l[7] == q),
        ChordQuality::Sus4 => assert(l[8] == q),
        ChordQuality::MinorMajor7 => assert(l[9] == q),
    }
}

/// Complexity levels for chord generation.
#[derive(Debug, Clone, Copy, PartialEq, Eq, Structural)]
pub enum ComplexityLevel {
    /// Simple major/minor triads
    Beginner,
    /// Add some 7th chords and sus chords
    Intermediate,
    /// Full range of chord qualities and extensions
    Advanced,
    /// Professional level with complex harmonies
    Expert,
}

impl ComplexityLevel {
    /// The qualities allowed at this level.
    pub open spec fn allowed_seq(self) -> Seq<ChordQuality> {
        match self {
            ComplexityLevel::Beginner => seq![ChordQuality::Major, ChordQuality::Minor],
            ComplexityLevel::Intermediate => seq![
                ChordQuality::Major,
                ChordQuality::Minor,
                ChordQuality::Dominant7,
                ChordQuality::Sus2,
                ChordQuality::Sus4,
            ],
            ComplexityLevel::Advanced => seq![
                ChordQuality::Major,
                ChordQuality::Minor,
                ChordQuality::Major7,
                ChordQuality::Minor7,
                ChordQuality::Dominant7,
                ChordQuality::Sus2,
                ChordQuality::Sus4,
                ChordQuality::Diminished,
            ],
            ComplexityLevel::Expert => all_quality_list(),
        }
    }

    /// Rank of the level, Beginner = 0 up to Expert = 3.
    pub open spec fn rank(self) -> int {
        match self {
            ComplexityLevel::Beginner => 0,
            ComplexityLevel::Intermediate => 1,
            ComplexityLevel::Advanced => 2,
            ComplexityLevel::Expert => 3,
        }
    }

    /// Description of the level.
    pub open spec fn description_view(self) -> Seq<char> {
        match self {
            ComplexityLevel::Beginner => "Simple major and minor chords"@,
            ComplexityLevel::Intermediate => "Basic chords plus 7ths and sus chords"@,
            ComplexityLevel::Advanced => "Wide variety of chord types"@,
            ComplexityLevel::Expert => "All chord types including complex harmonies"@,
        }
    }

    /// Chord qualities allowed at this complexity level.
    pub fn allowed_qualities(&self) -> (r: Vec<ChordQuality>)
        ensures
            r@ == self.allowed_seq(),
    {
        let r = match self {
            ComplexityLevel::Beginner => vec![ChordQuality::Major, ChordQuality::Minor],
            ComplexityLevel::Intermediate => vec![
                ChordQuality::Major,
                ChordQuality::Minor,
                ChordQuality::Dominant7,
                ChordQuality::Sus2,
                ChordQuality::Sus4,
            ],
            ComplexityLevel::Advanced => vec![
                ChordQuality::Major,
                ChordQuality::Minor,
                ChordQuality::Major7,
                ChordQuality::Minor7,
                ChordQuality::Dominant7,
                ChordQuality::Sus2,
                ChordQuality::Sus4,
                ChordQuality::Diminished,
            ],
            ComplexityLevel::Expert => ChordQuality::all_qualities(),
        };
        assert(r@ =~= self.allowed_seq());
        r
    }

    /// Description of the complexity level.
    pub fn description(&self) -> (r: &'static str)
        ensures
            r@ == self.description_view(),
    {
        match self {
            ComplexityLevel::Beginner => "Simple major and minor chords",
            ComplexityLevel::Intermediate => "Basic chords plus 7ths and sus chords",
            ComplexityLevel::Advanced => "Wide variety of chord types",
            ComplexityLevel::Expert => "All chord types including complex harmonies",
        }
    }
}

/// A higher complexity level allows every quality that a lower one allows.
pub proof fn law_complexity_monotone(lo: ComplexityLevel, hi: ComplexityLevel, q: ChordQuality)
    requires
        lo.rank() <= hi.rank(),
        lo.allowed_seq().contains(q),
    ensures
        hi.allowed_seq().contains(q),
{
    law_all_qualities_complete(q);
    let l = lo.allowed_seq();
    let h = hi.allowed_seq();
    let i = choose|i: int| 0 <= i < l.len() && l[i] == q;
    match hi {
        ComplexityLevel::Expert => {},
        ComplexityLevel::Advanced => {
            if q == ChordQuality::Major { assert(h[0] == q); }
            else if q == ChordQuality::Minor { assert(h[1] == q); }
            else if q == ChordQuality::Dominant7 { assert(h[4] == q); }
            else if q == ChordQuality::Sus2 { assert(h[5] == q); }
            else if q == ChordQuality::Sus4 { assert(h[6] == q); }
            else if q == ChordQuality::Major7 { assert(h[2] == q); }
            else if q == ChordQuality::Minor7 { assert(h[3] == q); }
            else if q == ChordQuality::Diminished { assert(h[7] == q); }
        },
        ComplexityLevel::Intermediate => {
            if q == ChordQuality::Major { assert(h[0] == q); }
            else if q == ChordQuality::Minor { assert(h[1] == q); }
            else if q == ChordQuality::Dominant7 { assert(h[2] == q); }
            else if q == ChordQuality::Sus2 { assert(h[3] == q); }
            else if q == ChordQuality::Sus4 { assert(h[4] == q); }
        },
        ComplexityLevel::Beginner => {
            assert(h[i] == q);
        },
    }
}

/// Display preferences for the chord timeline.
#[derive(Debug, Clone)]
pub struct UiConfig {
    /// Show chord symbols (C, Dm, G7, etc.)
    pub show_chord_symbols: bool,
    /// Show standard musical notation
    pub show_chord_notation: bool,
    /// Show Roman numeral analysis (I, ii, V, etc.)
    pub show_roman_numerals: bool,
    /// Show key center information
    pub show_key_center: bool,
    /// Show chord function labels (tonic, subdominant, etc.)
    pub show_chord_functions: bool,
    /// Timeline visualization style
    pub timeline_style: TimelineStyle,
    /// Color scheme for chord display
    pub color_scheme: ColorScheme,
}

impl Default for UiConfig {
    /// Chord symbols and key center shown; notation, numerals and functions
    /// hidden; horizontal timeline with the default colors.
    fn default() -> (r: Self)
        ensures
            r.show_chord_symbols,
            !r.show_chord_notation,
            !r.show_roman_numerals,
            r.show_key_center,
            !r.show_chord_functions,
            r.timeline_style == TimelineStyle::Horizontal,
            r.color_scheme == ColorScheme::Default,
    {
        Self {
            show_chord_symbols: true,
            show_chord_notation: false,
            show_roman_numerals: false,
            show_key_center: true,
            show_chord_functions: false,
            timeline_style: TimelineStyle::Horizontal,
            color_scheme: ColorScheme::Default,
        }
    }
}

/// Timeline visualization styles.
#[derive(Debug, Clone, Copy, PartialEq, Eq, Structural)]
pub enum TimelineStyle {
    /// Horizontal timeline (left to right)
    Horizontal,
    /// Vertical timeline (top to bottom)
    Vertical,
    /// Circular timeline (like a clock)
    Circular,
}

/// Color schemes for chord display.
#[derive(Debug, Clone, Copy, PartialEq, Eq, Structural)]
pub enum ColorScheme {
    /// Default color scheme
    Default,
    /// High contrast for accessibility
    HighContrast,
    /// Color-blind friendly palette
    ColorBlindFriendly,
    /// Monochrome for printing
    Monochrome,
}

/// Configuration presets.
#[derive(Debug, Clone, Copy, PartialEq, Eq, Structural)]
pub enum ConfigPreset {
    /// Default balanced configuration
    Default,
    /// Jazz-style progressions
    Jazz,
    /// Pop/rock progressions
    Pop,
    /// Practice/drilling mode
    Practice,
}

impl ConfigPreset {
    /// Display name of the preset.
    pub open spec fn name_view(self) -> Seq<char> {
        match self {
            ConfigPreset::Default => "Default"@,
            ConfigPreset::Jazz => "Jazz"@,
            ConfigPreset::Pop => "Pop/Rock"@,
            ConfigPreset::Practice => "Practice"@,
        }
    }

    /// Description of the preset.
    pub open spec fn description_view(self) -> Seq<char> {
        match self {
            ConfigPreset::Default => "Balanced settings for general use"@,
            ConfigPreset::Jazz => "Complex harmonies with smooth voice leading"@,
            ConfigPreset::Pop => "Simple, popular chord progressions"@,
            ConfigPreset::Practice => "Enhanced features for chord drilling"@,
        }
    }

    /// All available presets.
    pub fn all() -> (r: Vec<ConfigPreset>)
        ensures
            r@ == seq![ConfigPreset::Default, ConfigPreset::Jazz, ConfigPreset::Pop, ConfigPreset::Practice],
    {
        let r = vec![ConfigPreset::Default, ConfigPreset::Jazz, ConfigPreset::Pop, ConfigPreset::Practice];
        assert(r@ =~= seq![ConfigPreset::Default, ConfigPreset::Jazz, ConfigPreset::Pop, ConfigPreset::Practice]);
        r
    }

    /// Preset name for display.
    pub fn name(&self) -> (r: &'static str)
        ensures
            r@ == self.name_view(),
    {
        match self {
            ConfigPreset::Default => "Default",
            ConfigPreset::Jazz => "Jazz",
            ConfigPreset::Pop => "Pop/Rock",
            ConfigPreset::Practice => "Practice",
        }
    }

    /// Preset description.
    pub fn description(&self) -> (r: &'static str)
        ensures
            r@ == self.description_view(),
    {
        match self {
            ConfigPreset::Default => "Balanced settings for general use",
            ConfigPreset::Jazz => "Complex harmonies with smooth voice leading",
            ConfigPreset::Pop => "Simple, popular chord progressions",
            ConfigPreset::Practice => "Enhanced features for chord drilling",
        }
    }
}

} // verus!
