//! Beat display logic: turns the last triggered beat, the time signature and
//! the accent settings into one visual per beat of the measure.

use vstd::prelude::*;
use crate::timing::TimeSignature;

verus! {

/// Visual representation of a single beat.
#[derive(Debug, Clone, Copy, PartialEq, Eq, Structural)]
pub struct BeatVisual {
    /// Beat number (1-based)
    pub beat_number: u8,
    /// Whether this beat is currently active/playing
    pub is_current: bool,
    /// Whether this beat is accented
    pub is_accent: bool,
    /// Visual color for this beat
    pub color: BeatColor,
    /// Visual symbol for this beat
    pub symbol: BeatSymbol,
}

/// Color coding for beat visualization.
#[derive(Debug, Clone, Copy, PartialEq, Eq, Structural)]
pub enum BeatColor {
    /// Current beat with accent (yellow)
    CurrentAccent,
    /// Current beat without accent (green)
    Current,
    /// Non-current accent beat (light gray)
    Accent,
    /// Regular non-current beat (gray)
    Regular,
}

/// Symbol representation for beats.
#[derive(Debug, Clone, Copy, PartialEq, Eq, Structural)]
pub enum BeatSymbol {
    /// Filled circle for accent beats
    FilledCircle,
    /// Empty circle for regular beats
    EmptyCircle,
}

/// Color scheme configuration for beat visualization (RGB triples).
#[derive(Debug, Clone, Copy)]
pub struct BeatColorScheme {
    /// Current accented beat
    pub current_accent: (u8, u8, u8),
    /// Current beat
    pub current: (u8, u8, u8),
    /// Accented beat
    pub accent: (u8, u8, u8),
    /// Regular beat
    pub regular: (u8, u8, u8),
}

/// The default colors: yellow, green, light gray and gray.
pub open spec fn default_colors() -> BeatColorScheme {
    BeatColorScheme {
        current_accent: (255u8, 255u8, 0u8),
        current: (0u8, 255u8, 0u8),
        accent: (192u8, 192u8, 192u8),
        regular: (128u8, 128u8, 128u8),
    }
}

impl Default for BeatColorScheme {
    /// Yellow, green, light gray and gray.
    fn default() -> (r: Self)
        ensures
            r == default_colors(),
    {
        Self {
            current_accent: (255, 255, 0),
            current: (0, 255, 0),
            accent: (192, 192, 192),
            regular: (128, 128, 128),
        }
    }
}

/// Visualization mode configuration.
#[derive(Debug, Clone, Copy, PartialEq, Eq, Structural)]
pub enum VisualizationMode {
    /// Simple metronome mode
    Metronome,
    /// Pattern mode with additional info
    Pattern,
}

/// What the beat display reads of a loaded drum pattern: its time signature
/// and, for each beat of the pattern, the whole beat of the measure it falls in
/// and whether it is accented.
#[derive(Debug, Clone)]
pub struct PatternBeats {
    pub time_signature: TimeSignature,
    pub beats: Vec<(u8, bool)>,
}

/// The beats of one measure as displayed, with the time signature they follow.
#[derive(Debug, Clone)]
pub struct BeatVisuals {
    /// Visual representation for each beat, in order
    pub beats: Vec<BeatVisual>,
    /// Time signature of the displayed measure
    pub time_signature: TimeSignature,
}

/// Color of a beat from whether it is current and whether it is accented.
pub open spec fn color_for(is_current: bool, is_accent: bool) -> BeatColor {
    if is_current && is_accent {
        BeatColor::CurrentAccent
    } else if is_current {
        BeatColor::Current
    } else if is_accent {
        BeatColor::Accent
    } else {
        BeatColor::Regular
    }
}

/// The visual of beat `beat`: accented beats get a filled circle.
pub open spec fn visual_for(beat: int, is_current: bool, is_accent: bool) -> BeatVisual {
    BeatVisual {
        beat_number: beat as u8,
        is_current,
        is_accent,
        color: color_for(is_current, is_accent),
        symbol: if is_accent {
            BeatSymbol::FilledCircle
        } else {
            BeatSymbol::EmptyCircle
        },
    }
}

/// Some accented beat of the pattern falls in beat `beat` of the measure.
pub open spec fn pattern_accents(beats: Seq<(u8, bool)>, beat: int) -> bool {
    exists|i: int| 0 <= i < beats.len() && (#[trigger] beats[i]).0 == beat && beats[i].1
}

/// The beat shown as current: the last triggered beat while playing, else
/// beat 1; always beat 1 in pattern mode without a pattern player.
pub open spec fn shown_beat(
    mode: VisualizationMode,
    last_beat: (u8, bool),
    pattern_state: Option<&Option<PatternBeats>>,
    is_playing: bool,
) -> int {
    if mode == VisualizationMode::Pattern && pattern_state is None {
        1
    } else if is_playing && last_beat.0 > 0 {
        last_beat.0 as int
    } else {
        1
    }
}

/// The time signature shown: the loaded pattern's in pattern mode, else `own`.
pub open spec fn shown_signature(
    mode: VisualizationMode,
    own: TimeSignature,
    pattern_state: Option<&Option<PatternBeats>>,
) -> TimeSignature {
    match pattern_state {
        Some(Some(p)) => if mode == VisualizationMode::Pattern {
            p.time_signature
        } else {
            own
        },
        _ => own,
    }
}

/// Whether beat `beat` is shown accented: the current beat as it was triggered,
/// other beats as the loaded pattern defines them in pattern mode, or beat 1
/// when first-beat accents are on in metronome mode.
pub open spec fn shown_accent(
    mode: VisualizationMode,
    beat: int,
    is_current: bool,
    last_beat: (u8, bool),
    pattern_state: Option<&Option<PatternBeats>>,
    accent_first_beat: bool,
) -> bool {
    if is_current {
        last_beat.1
    } else if mode == VisualizationMode::Pattern {
        match pattern_state {
            Some(Some(p)) => pattern_accents(p.beats@, beat),
            _ => false,
        }
    } else {
        beat == 1 && accent_first_beat
    }
}

/// The visual of beat `beat` (1-based).
pub open spec fn shown_visual(
    mode: VisualizationMode,
    beat: int,
    last_beat: (u8, bool),
    pattern_state: Option<&Option<PatternBeats>>,
    is_playing: bool,
    accent_first_beat: bool,
) -> BeatVisual {
    let is_current = beat == shown_beat(mode, last_beat, pattern_state, is_playing) && is_playing;
    let is_accent = shown_accent(mode, beat, is_current, last_beat, pattern_state, accent_first_beat);
    visual_for(beat, is_current, is_accent)
}

/// One visual per beat of the shown measure, in `mode` with the display's own
/// time signature `own`.
pub open spec fn measure_visuals(
    mode: VisualizationMode,
    own: TimeSignature,
    last_beat: (u8, bool),
    pattern_state: Option<&Option<PatternBeats>>,
    is_playing: bool,
    accent_first_beat: bool,
) -> Seq<BeatVisual> {
    Seq::new(
        shown_signature(mode, own, pattern_state).beats_per_measure as nat,
        |i: int| shown_visual(mode, i + 1, last_beat, pattern_state, is_playing, accent_first_beat),
    )
}

/// At most one beat of the measure is shown as current, and none while stopped;
/// a beat's color and symbol follow from whether it is current and accented.
pub proof fn law_single_current_beat(
    mode: VisualizationMode,
    own: TimeSignature,
    last_beat: (u8, bool),
    pattern_state: Option<&Option<PatternBeats>>,
    is_playing: bool,
    accent_first_beat: bool,
    i: int,
    j: int,
)
    requires
        0 <= i < measure_visuals(mode, own, last_beat, pattern_state, is_playing, accent_first_beat).len(),
        0 <= j < measure_visuals(mode, own, last_beat, pattern_state, is_playing, accent_first_beat).len(),
    ensures
        ({
            let v = measure_visuals(mode, own, last_beat, pattern_state, is_playing, accent_first_beat);
            &&& v[i].is_current && v[j].is_current ==> i == j
            &&& !is_playing ==> !v[i].is_current
            &&& v[i].beat_number == i + 1
            &&& v[i].color == color_for(v[i].is_current, v[i].is_accent)
            &&& (v[i].symbol == BeatSymbol::FilledCircle) == v[i].is_accent
        }),
{
}

/// In metronome mode a beat that is not current is accented exactly when it is
/// beat 1 and first-beat accents are on.
pub proof fn law_metronome_accents(
    own: TimeSignature,
    last_beat: (u8, bool),
    pattern_state: Option<&Option<PatternBeats>>,
    is_playing: bool,
    accent_first_beat: bool,
    i: int,
)
    requires
        0 <= i < own.beats_per_measure,
    ensures
        ({
            let v = measure_visuals(
                VisualizationMode::Metronome,
                own,
                last_beat,
                pattern_state,
                is_playing,
                accent_first_beat,
            );
            &&& v.len() == own.beats_per_measure
            &&& !v[i].is_current ==> v[i].is_accent == (i == 0 && accent_first_beat)
        }),
{
}

/// Main beat display manager.
pub struct BeatDisplay {
    /// Current visualization mode
    mode: VisualizationMode,
    /// Current time signature
    time_signature: TimeSignature,
    /// Color scheme
    color_scheme: BeatColorScheme,
    /// Cached visual state
    cached_state: Option<BeatVisuals>,
    /// Whether the cache is out of date
    cache_dirty: bool,
}

impl BeatDisplay {
    pub closed spec fn mode_view(self) -> VisualizationMode {
        self.mode
    }

    pub closed spec fn time_signature_view(self) -> TimeSignature {
        self.time_signature
    }

    pub closed spec fn color_scheme_view(self) -> BeatColorScheme {
        self.color_scheme
    }

    /// The cached beats and time signature, if any.
    pub closed spec fn cached_view(self) -> Option<(Seq<BeatVisual>, TimeSignature)> {
        match self.cached_state {
            Some(s) => Some((s.beats@, s.time_signature)),
            None => None,
        }
    }

    pub closed spec fn dirty_view(self) -> bool {
        self.cache_dirty
    }

    /// One visual per beat of the measure this display shows.
    pub open spec fn shown_visuals(
        self,
        last_beat: (u8, bool),
        pattern_state: Option<&Option<PatternBeats>>,
        is_playing: bool,
        accent_first_beat: bool,
    ) -> Seq<BeatVisual> {
        measure_visuals(
            self.mode_view(),
            self.time_signature_view(),
            last_beat,
            pattern_state,
            is_playing,
            accent_first_beat,
        )
    }

    /// The time signature of the measure this display shows.
    pub open spec fn shown_time_signature(self, pattern_state: Option<&Option<PatternBeats>>) -> TimeSignature {
        shown_signature(self.mode_view(), self.time_signature_view(), pattern_state)
    }

    /// Create a beat display in metronome mode with the default colors.
    pub fn new(time_signature: TimeSignature) -> (r: Self)
        ensures
            r.mode_view() == VisualizationMode::Metronome,
            r.time_signature_view() == time_signature,
            r.color_scheme_view() == default_colors(),
            r.cached_view() is None,
            r.dirty_view(),
    {
        Self {
            mode: VisualizationMode::Metronome,
            time_signature,
            color_scheme: BeatColorScheme::default(),
            cached_state: None,
            cache_dirty: true,
        }
    }

    /// Current visualization mode.
    pub fn mode(&self) -> (r: VisualizationMode)
        ensures
            r == self.mode_view(),
    {
        self.mode
    }

    /// Current time signature.
    pub fn time_signature(&self) -> (r: TimeSignature)
        ensures
            r == self.time_signature_view(),
    {
        self.time_signature
    }

    /// Set the visualization mode; a change of mode marks the cache out of date.
    pub fn set_mode(&mut self, mode: VisualizationMode)
        ensures
            final(self).mode_view() == mode,
            final(self).time_signature_view() == old(self).time_signature_view(),
            final(self).color_scheme_view() == old(self).color_scheme_view(),
            final(self).cached_view() == old(self).cached_view(),
            final(self).dirty_view() == (old(self).dirty_view() || old(self).mode_view() != mode),
    {
        if self.mode != mode {
            self.mode = mode;
            self.cache_dirty = true;
        }
    }

    /// Update the time signature; a change marks the cache out of date.
    pub fn set_time_signature(&mut self, time_signature: TimeSignature)
        ensures
            final(self).mode_view() == old(self).mode_view(),
            final(self).time_signature_view() == time_signature,
            final(self).color_scheme_view() == old(self).color_scheme_view(),
            final(self).cached_view() == old(self).cached_view(),
            final(self).dirty_view() == (old(self).dirty_view() || old(self).time_signature_view()
                != time_signature),
    {
        if self.time_signature != time_signature {
            self.time_signature = time_signature;
            self.cache_dirty = true;
        }
    }

    /// Set a custom color scheme and mark the cache out of date.
    pub fn set_color_scheme(&mut self, scheme: BeatColorScheme)
        ensures
            final(self).mode_view() == old(self).mode_view(),
            final(self).time_signature_view() == old(self).time_signature_view(),
            final(self).color_scheme_view() == scheme,
            final(self).cached_view() == old(self).cached_view(),
            final(self).dirty_view(),
    {
        self.color_scheme = scheme;
        self.cache_dirty = true;
    }

    /// Generate the visual state of the current measure.
    ///
    /// `last_beat` is the last triggered beat and whether it was accented (beat 1,
    /// unaccented, before any trigger); `pattern_state` is the pattern player's
    /// state, given by its loaded pattern, when there is a pattern player.
    pub fn generate_visual_state(
        &self,
        last_beat: (u8, bool),
        pattern_state: Option<&Option<PatternBeats>>,
        is_playing: bool,
        accent_first_beat: bool,
    ) -> (r: BeatVisuals)
        ensures
            r.time_signature == self.shown_time_signature(pattern_state),
            r.beats@ == self.shown_visuals(last_beat, pattern_state, is_playing, accent_first_beat),
    {
        // the beat shown as current, and the time signature of the shown measure
        let (current_beat_display, effective_time_sig) = match self.mode {
            VisualizationMode::Pattern => {
                match pattern_state {
                    Some(loaded) => {
                        let pattern_beat = if is_playing && last_beat.0 > 0 {
                            last_beat.0
                        } else {
                            1
                        };
                        let time_sig = match loaded {
                            Some(p) => p.time_signature,
                            None => self.time_signature,
                        };
                        (pattern_beat, time_sig)
                    },
                    None => (1u8, self.time_signature),
                }
            },
            VisualizationMode::Metronome => {
                let metronome_beat = if is_playing && last_beat.0 > 0 {
                    last_beat.0
                } else {
                    1
                };
                (metronome_beat, self.time_signature)
            },
        };
        assert(current_beat_display == shown_beat(self.mode_view(), last_beat, pattern_state, is_playing));
        assert(effective_time_sig == self.shown_time_signature(pattern_state));
        let ghost expected = self.shown_visuals(last_beat, pattern_state, is_playing, accent_first_beat);
        let mut beats: Vec<BeatVisual> = Vec::new();
        let count: u16 = effective_time_sig.beats_per_measure as u16;
        let mut beat: u16 = 1;
        while beat <= count
            invariant
                1 <= beat <= count + 1,
                count == effective_time_sig.beats_per_measure,
                current_beat_display == shown_beat(self.mode_view(), last_beat, pattern_state, is_playing),
                effective_time_sig == self.shown_time_signature(pattern_state),
                expected == self.shown_visuals(last_beat, pattern_state, is_playing, accent_first_beat),
                beats@.len() == beat - 1,
                forall|i: int| 0 <= i < beats@.len() ==> #[trigger] beats@[i] == expected[i],
            decreases count + 1 - beat,
        {
            let b: u8 = beat as u8;
            let is_current = b == current_beat_display && is_playing;
            let is_accent = if is_current {
                last_beat.1
            } else if self.mode == VisualizationMode::Pattern {
                match pattern_state {
                    Some(Some(p)) => pattern_has_accent(&p.beats, b),
                    _ => false,
                }
            } else {
                b == 1 && accent_first_beat
            };
            let color = if is_current && is_accent {
                BeatColor::CurrentAccent
            } else if is_current {
                BeatColor::Current
            } else if is_accent {
                BeatColor::Accent
            } else {
                BeatColor::Regular
            };
            let symbol = if is_accent {
                BeatSymbol::FilledCircle
            } else {
                BeatSymbol::EmptyCircle
            };
            beats.push(BeatVisual { beat_number: b, is_current, is_accent, color, symbol });
            assert(beats@[beat - 1] == expected[beat - 1]);
            beat = beat + 1;
        }
        assert(beats@ =~= expected);
        BeatVisuals { beats, time_signature: effective_time_sig }
    }

    /// The visual state of the current measure, from the cache while it is up to
    /// date, else freshly generated and cached.
    pub fn get_visual_state(
        &mut self,
        last_beat: (u8, bool),
        pattern_state: Option<&Option<PatternBeats>>,
        is_playing: bool,
        accent_first_beat: bool,
    ) -> (r: BeatVisuals)
        ensures
            final(self).mode_view() == old(self).mode_view(),
            final(self).time_signature_view() == old(self).time_signature_view(),
            final(self).color_scheme_view() == old(self).color_scheme_view(),
            !final(self).dirty_view(),
            final(self).cached_view() == Some((r.beats@, r.time_signature)),
            (old(self).dirty_view() || old(self).cached_view() is None) ==> r.beats@
                == old(self).shown_visuals(last_beat, pattern_state, is_playing, accent_first_beat)
                && r.time_signature == old(self).shown_time_signature(pattern_state),
            !(old(self).dirty_view() || old(self).cached_view() is None) ==> final(self).cached_view()
                == old(self).cached_view(),
    {
        if self.cache_dirty || self.cached_state.is_none() {
            let state = self.generate_visual_state(last_beat, pattern_state, is_playing, accent_first_beat);
            let copy = BeatVisuals { beats: copy_visuals(&state.beats), time_signature: state.time_signature };
            self.cached_state = Some(state);
            self.cache_dirty = false;
            copy
        } else {
            match &self.cached_state {
                Some(cached) => BeatVisuals {
                    beats: copy_visuals(&cached.beats),
                    time_signature: cached.time_signature,
                },
                None => {
                    assert(false);
                    BeatVisuals { beats: Vec::new(), time_signature: self.time_signature }
                },
            }
        }
    }

    /// Mark the cache out of date (call when the beat state changes).
    pub fn invalidate_cache(&mut self)
        ensures
            final(self).mode_view() == old(self).mode_view(),
            final(self).time_signature_view() == old(self).time_signature_view(),
            final(self).color_scheme_view() == old(self).color_scheme_view(),
            final(self).cached_view() == old(self).cached_view(),
            final(self).dirty_view(),
    {
        self.cache_dirty = true;
    }

    /// RGB values of a beat color in the display's color scheme.
    pub fn get_color_rgb(&self, color: BeatColor) -> (r: (u8, u8, u8))
        ensures
            r == match color {
                BeatColor::CurrentAccent => self.color_scheme_view().current_accent,
                BeatColor::Current => self.color_scheme_view().current,
                BeatColor::Accent => self.color_scheme_view().accent,
                BeatColor::Regular => self.color_scheme_view().regular,
            },
    {
        match color {
            BeatColor::CurrentAccent => self.color_scheme.current_accent,
            BeatColor::Current => self.color_scheme.current,
            BeatColor::Accent => self.color_scheme.accent,
            BeatColor::Regular => self.color_scheme.regular,
        }
    }

    /// Character for a beat symbol: a filled or an empty circle.
    pub fn get_symbol_char(&self, symbol: BeatSymbol) -> (r: char)
        ensures
            r == symbol_char(symbol),
    {
        match symbol {
            BeatSymbol::FilledCircle => '\u{25CF}',
            BeatSymbol::EmptyCircle => '\u{25CB}',
        }
    }
}

/// The character drawn for a beat symbol: U+25CF (filled circle) or U+25CB (empty circle).
pub open spec fn symbol_char(symbol: BeatSymbol) -> char {
    match symbol {
        BeatSymbol::FilledCircle => '\u{25CF}',
        BeatSymbol::EmptyCircle => '\u{25CB}',
    }
}

/// Whether some accented beat of the pattern falls in beat `beat` of the measure.
fn pattern_has_accent(beats: &Vec<(u8, bool)>, beat: u8) -> (r: bool)
    ensures
        r == pattern_accents(beats@, beat as int),
{
    let mut i: usize = 0;
    while i < beats.len()
        invariant
            i <= beats.len(),
            forall|k: int| 0 <= k < i ==> !((#[trigger] beats@[k]).0 == beat && beats@[k].1),
        decreases beats.len() - i,
    {
        let (beat_number, accent) = beats[i];
        if beat_number == beat && accent {
            assert(beats@[i as int].0 == beat && beats@[i as int].1);
            return true;
        }
        i = i + 1;
    }
    false
}

/// A copy of a list of beat visuals.
fn copy_visuals(beats: &Vec<BeatVisual>) -> (r: Vec<BeatVisual>)
    ensures
        r@ == beats@,
{
    let mut out: Vec<BeatVisual> = Vec::new();
    let mut i: usize = 0;
    while i < beats.len()
        invariant
            i <= beats.len(),
            out@ == beats@.take(i as int),
        decreases beats.len() - i,
    {
        out.push(beats[i]);
        i = i + 1;
        assert(out@ =~= beats@.take(i as int));
    }
    assert(beats@.take(beats.len() as int) =~= beats@);
    out
}

/// The beats of one measure as (beat number, current, accented, RGB color,
/// symbol character), in the given mode, with the default colors.
pub fn get_legacy_beat_visuals(
    last_beat: (u8, bool),
    pattern_state: Option<&Option<PatternBeats>>,
    time_signature: TimeSignature,
    is_playing: bool,
    accent_first_beat: bool,
    pattern_mode: bool,
) -> (r: Vec<(u8, bool, bool, (u8, u8, u8), char)>)
    ensures
        ({
            let mode = if pattern_mode {
                VisualizationMode::Pattern
            } else {
                VisualizationMode::Metronome
            };
            let expected = measure_visuals(
                mode,
                time_signature,
                last_beat,
                pattern_state,
                is_playing,
                accent_first_beat,
            );
            &&& r@.len() == expected.len()
            &&& forall|i: int| 0 <= i < r@.len() ==> #[trigger] r@[i] == legacy_tuple(expected[i])
        }),
{
    let mut display = BeatDisplay::new(time_signature);
    display.set_mode(
        if pattern_mode {
            VisualizationMode::Pattern
        } else {
            VisualizationMode::Metronome
        },
    );
    let state = display.generate_visual_state(last_beat, pattern_state, is_playing, accent_first_beat);
    let mut out: Vec<(u8, bool, bool, (u8, u8, u8), char)> = Vec::new();
    let mut i: usize = 0;
    while i < state.beats.len()
        invariant
            i <= state.beats.len(),
            display.color_scheme_view() == default_colors(),
            out@.len() == i,
            forall|k: int| 0 <= k < i ==> #[trigger] out@[k] == legacy_tuple(state.beats@[k]),
        decreases state.beats.len() - i,
    {
        let beat = state.beats[i];
        let color_rgb = display.get_color_rgb(beat.color);
        let symbol_char = display.get_symbol_char(beat.symbol);
        out.push((beat.beat_number, beat.is_current, beat.is_accent, color_rgb, symbol_char));
        i = i + 1;
    }
    out
}

/// A beat visual as a (beat number, current, accented, RGB color, symbol character)
/// tuple, with the default colors.
pub open spec fn legacy_tuple(v: BeatVisual) -> (u8, bool, bool, (u8, u8, u8), char) {
    let scheme = default_colors();
    let rgb = match v.color {
        BeatColor::CurrentAccent => scheme.current_accent,
        BeatColor::Current => scheme.current,
        BeatColor::Accent => scheme.accent,
        BeatColor::Regular => scheme.regular,
    };
    (v.beat_number, v.is_current, v.is_accent, rgb, symbol_char(v.symbol))
}

} // verus!
