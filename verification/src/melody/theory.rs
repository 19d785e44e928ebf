//! Music theory: scale types, chord functions, the circle of fifths and voice leading.

use vstd::prelude::*;
use super::types::{
    Chord, ChordQuality, KeySelection, Note, lemma_interval_shape, major_intervals, major_step,
    minor_intervals, minor_step, note_at,
};

verus! {

/// Scale types for key analysis.
#[derive(Debug, Clone, Copy, PartialEq, Eq, Structural)]
pub enum ScaleType {
    Major,
    NaturalMinor,
    HarmonicMinor,
    MelodicMinor,
    Dorian,
    Mixolydian,
}

/// Functional harmony roles.
#[derive(Debug, Clone, Copy, PartialEq, Eq, Structural, Hash)]
pub enum ChordFunction {
    /// I, vi, iii
    Tonic,
    /// IV, ii
    Subdominant,
    /// V, vii°
    Dominant,
    /// iv
    SubdominantMinor,
    /// Secondary dominants, etc.
    Secondary,
    /// Non-diatonic
    Chromatic,
}

/// Position of a note on the circle of fifths (C = 0, G = 1, ..., F = 11).
pub open spec fn fifths_position(n: Note) -> int {
    match n {
        Note::C => 0,
        Note::G => 1,
        Note::D => 2,
        Note::A => 3,
        Note::E => 4,
        Note::B => 5,
        Note::FSharp => 6,
        Note::CSharp => 7,
        Note::GSharp => 8,
        Note::DSharp => 9,
        Note::ASharp => 10,
        Note::F => 11,
    }
}

/// Shortest way around a circle of 12 between positions `a` and `b` (0-6).
pub open spec fn circle_distance(a: int, b: int) -> int {
    let diff = if a >= b {
        a - b
    } else {
        b - a
    };
    if diff <= 12 - diff {
        diff
    } else {
        12 - diff
    }
}

/// Circle of fifths relationships.
pub struct CircleOfFifths;

impl CircleOfFifths {
    /// Position on the circle of fifths (0-11, C = 0).
    pub fn position(note: Note) -> (r: u8)
        ensures
            r == fifths_position(note),
    {
        match note {
            Note::C => 0,
            Note::G => 1,
            Note::D => 2,
            Note::A => 3,
            Note::E => 4,
            Note::B => 5,
            Note::FSharp => 6,
            Note::CSharp => 7,
            Note::GSharp => 8,
            Note::DSharp => 9,
            Note::ASharp => 10,
            Note::F => 11,
        }
    }

    /// Harmonic distance between two notes: steps around the circle of fifths (0-6).
    pub fn distance(note1: Note, note2: Note) -> (r: u8)
        ensures
            r == circle_distance(fifths_position(note1), fifths_position(note2)),
    {
        let pos1 = Self::position(note1);
        let pos2 = Self::position(note2);
        let diff: u8 = if pos1 >= pos2 {
            pos1 - pos2
        } else {
            pos2 - pos1
        };
        if diff <= 12 - diff {
            diff
        } else {
            12 - diff
        }
    }

    /// Relative key: the relative minor of a major key (down 3 semitones), or
    /// the relative major of a minor key (up 3 semitones).
    pub fn relative_key(note: Note, is_major: bool) -> (r: Note)
        ensures
            r == note.transposed(if is_major {
                -3
            } else {
                3
            }),
    {
        if is_major {
            note.transpose(-3)
        } else {
            note.transpose(3)
        }
    }

    /// Parallel key: same root, other mode.
    pub fn parallel_key(note: Note) -> (r: Note)
        ensures
            r == note,
    {
        note
    }

    /// Dominant of a key (a perfect fifth up).
    pub fn dominant(key: Note) -> (r: Note)
        ensures
            r == key.transposed(7),
    {
        key.transpose(7)
    }

    /// Subdominant of a key (a perfect fourth up).
    pub fn subdominant(key: Note) -> (r: Note)
        ensures
            r == key.transposed(5),
    {
        key.transpose(5)
    }
}

/// The circle-of-fifths position of a note is seven times its pitch class, modulo 12.
pub proof fn law_fifths_position(n: Note)
    ensures
        fifths_position(n) == (7 * n.semitone()) % 12,
{
}

/// Circle distance is a symmetric measure between 0 and 6, zero from a note to itself.
pub proof fn law_distance_metric(a: Note, b: Note)
    ensures
        circle_distance(fifths_position(a), fifths_position(b)) == circle_distance(
            fifths_position(b),
            fifths_position(a),
        ),
        0 <= circle_distance(fifths_position(a), fifths_position(b)) <= 6,
        circle_distance(fifths_position(a), fifths_position(a)) == 0,
        circle_distance(fifths_position(a), fifths_position(b)) == 0 ==> a == b,
{
}

/// Going to the relative minor and back to its relative major returns the key;
/// likewise from a minor key. The dominant of the subdominant is the key itself,
/// and both lie one step away on the circle of fifths.
pub proof fn law_key_relations(k: Note)
    ensures
        k.transposed(-3).transposed(3) == k,
        k.transposed(3).transposed(-3) == k,
        k.transposed(5).transposed(7) == k,
        circle_distance(fifths_position(k), fifths_position(k.transposed(7))) == 1,
        circle_distance(fifths_position(k), fifths_position(k.transposed(5))) == 1,
{
}

/// Distance between two pitch classes around the octave (0-6).
pub open spec fn pitch_distance(a: Note, b: Note) -> int {
    circle_distance(a.semitone(), b.semitone())
}

/// Smallest movement from `t` to any note of `to` (12 when `to` is empty).
pub open spec fn min_movement(t: Note, to: Seq<Note>) -> int
    decreases to.len(),
{
    if to.len() == 0 {
        12
    } else {
        let rest = min_movement(t, to.drop_last());
        let d = pitch_distance(t, to.last());
        if d < rest {
            d
        } else {
            rest
        }
    }
}

/// Sum, over the notes of `from`, of the smallest movement to a note of `to`.
pub open spec fn total_movement(from: Seq<Note>, to: Seq<Note>) -> int
    decreases from.len(),
{
    if from.len() == 0 {
        0
    } else {
        total_movement(from.drop_last(), to) + min_movement(from.last(), to)
    }
}

proof fn lemma_min_movement_bound(t: Note, to: Seq<Note>)
    ensures
        0 <= min_movement(t, to) <= 12,
    decreases to.len(),
{
    if to.len() > 0 {
        lemma_min_movement_bound(t, to.drop_last());
    }
}

proof fn lemma_total_movement_bound(from: Seq<Note>, to: Seq<Note>)
    ensures
        0 <= total_movement(from, to) <= 12 * from.len(),
    decreases from.len(),
{
    if from.len() > 0 {
        lemma_total_movement_bound(from.drop_last(), to);
        lemma_min_movement_bound(from.last(), to);
    }
}

/// Voice leading: how far the voices of one chord move to reach another.
pub struct VoiceLeading;

impl VoiceLeading {
    /// Total voice movement from `from` to `to` and the number of voices of
    /// `from`: each voice moves to its nearest tone of `to`. The average
    /// movement (total / voices) measures smoothness, lower is smoother.
    pub fn total_movement(from: &Chord, to: &Chord) -> (r: (u32, u32))
        ensures
            r.0 == total_movement(from.tones(), to.tones()),
            r.1 == from.tones().len(),
    {
        let from_tones = from.chord_tones();
        let to_tones = to.chord_tones();
        proof {
            lemma_interval_shape(from.quality);
        }
        let mut total: u32 = 0;
        let mut voices: u32 = 0;
        let mut i: usize = 0;
        while i < from_tones.len()
            invariant
                from_tones@ == from.tones(),
                to_tones@ == to.tones(),
                from_tones@.len() <= 4,
                i <= from_tones.len(),
                voices == i,
                total == total_movement(from_tones@.take(i as int), to_tones@),
                total <= 12 * i,
            decreases from_tones.len() - i,
        {
            let from_tone = from_tones[i];
            let mut best: u8 = 12;
            let mut j: usize = 0;
            while j < to_tones.len()
                invariant
                    to_tones@ == to.tones(),
                    j <= to_tones.len(),
                    best == min_movement(from_tone, to_tones@.take(j as int)),
                    best <= 12,
                decreases to_tones.len() - j,
            {
                proof {
                    assert(to_tones@.take(j + 1).drop_last() =~= to_tones@.take(j as int));
                }
                let d = Self::note_distance(from_tone, to_tones[j]);
                if d < best {
                    best = d;
                }
                j = j + 1;
            }
            assert(to_tones@.take(to_tones@.len() as int) =~= to_tones@);
            proof {
                assert(from_tones@.take(i + 1).drop_last() =~= from_tones@.take(i as int));
            }
            total = total + best as u32;
            voices = voices + 1;
            i = i + 1;
        }
        assert(from_tones@.take(from_tones@.len() as int) =~= from_tones@);
        (total, voices)
    }

    /// Suggested inversion (0-2) of `to` for the smoothest move from `from`:
    /// the first inversion with the lowest average movement. Inverting a chord
    /// does not change its tones, so every inversion moves the same and the
    /// suggestion is root position.
    pub fn suggest_inversion(from: &Chord, to: &Chord) -> (r: u8)
        ensures
            r == 0,
    {
        let mut best_inversion: u8 = 0;
        // best average movement so far, as (total, voices); None before the first try
        let mut best: Option<(u32, u32)> = None;
        let mut inversion: u8 = 0;
        while inversion <= 2
            invariant
                inversion <= 3,
                inversion > 0 ==> best is Some,
                best matches Some(b) ==> b.0 == total_movement(from.tones(), to.tones()) && b.1
                    == from.tones().len(),
                best_inversion == 0,
            decreases 3 - inversion,
        {
            let inverted_chord = Chord::with_inversion(to.root, to.quality, inversion);
            assert(inverted_chord.tones() =~= to.tones());
            let (total, voices) = Self::total_movement(from, &inverted_chord);
            proof {
                lemma_total_movement_bound(from.tones(), to.tones());
                lemma_interval_shape(from.quality);
            }
            let better = match best {
                None => true,
                // total / voices < best_total / best_voices
                Some((best_total, best_voices)) => {
                    assert((total as u64) * (best_voices as u64) <= 48 * 4) by (nonlinear_arith)
                        requires
                            total <= 48,
                            best_voices <= 4,
                    ;
                    assert((best_total as u64) * (voices as u64) <= 48 * 4) by (nonlinear_arith)
                        requires
                            best_total <= 48,
                            voices <= 4,
                    ;
                    (total as u64) * (best_voices as u64) < (best_total as u64) * (voices as u64)
                },
            };
            if better {
                best = Some((total, voices));
                best_inversion = inversion;
            }
            inversion = inversion + 1;
        }
        best_inversion
    }

    /// Distance between two notes around the octave (0-6).
    fn note_distance(note1: Note, note2: Note) -> (r: u8)
        ensures
            r == pitch_distance(note1, note2),
    {
        let semitone1 = note1.as_semitone();
        let semitone2 = note2.as_semitone();
        let diff: u8 = if semitone1 >= semitone2 {
            semitone1 - semitone2
        } else {
            semitone2 - semitone1
        };
        if diff <= 12 - diff {
            diff
        } else {
            12 - diff
        }
    }

    /// Whether the progression moves its voices less than 3 semitones on average.
    pub fn has_good_voice_leading(from: &Chord, to: &Chord) -> (r: bool)
        ensures
            r == (total_movement(from.tones(), to.tones()) < 3 * from.tones().len()),
    {
        let (total, voices) = Self::total_movement(from, to);
        proof {
            lemma_total_movement_bound(from.tones(), to.tones());
            lemma_interval_shape(from.quality);
        }
        // average total / voices below 3; with no voices the movement counts as 12
        if voices > 0 {
            (total as u64) < 3 * (voices as u64)
        } else {
            false
        }
    }
}


/// Semitone offsets above the tonic of each scale type.
pub open spec fn scale_intervals(t: ScaleType) -> Seq<i8> {
    match t {
        ScaleType::Major => major_intervals(),
        ScaleType::NaturalMinor => minor_intervals(),
        ScaleType::HarmonicMinor => seq![0i8, 2, 3, 5, 7, 8, 11],
        ScaleType::MelodicMinor => seq![0i8, 2, 3, 5, 7, 9, 11],
        ScaleType::Dorian => seq![0i8, 2, 3, 5, 7, 9, 10],
        ScaleType::Mixolydian => seq![0i8, 2, 4, 5, 7, 9, 10],
    }
}

/// The notes of the scale of type `t` on `key`, from the tonic upwards.
pub open spec fn scale_notes(key: Note, t: ScaleType) -> Seq<Note> {
    scale_intervals(t).map_values(|iv: i8| key.transposed(iv as int))
}

/// Scale degree (1-7) of `note` in the major scale of `key`, or 0 when outside it.
pub open spec fn scale_degree(note: Note, key: Note) -> int {
    let offset = (note.semitone() - key.semitone()) % 12;
    if offset == 0 {
        1
    } else if offset == 2 {
        2
    } else if offset == 4 {
        3
    } else if offset == 5 {
        4
    } else if offset == 7 {
        5
    } else if offset == 9 {
        6
    } else if offset == 11 {
        7
    } else {
        0
    }
}

/// Harmonic function of a scale degree: I, iii, vi are tonic; ii, IV subdominant;
/// V, vii dominant; anything else chromatic.
pub open spec fn degree_function(degree: int) -> ChordFunction {
    if degree == 1 || degree == 3 || degree == 6 {
        ChordFunction::Tonic
    } else if degree == 2 || degree == 4 {
        ChordFunction::Subdominant
    } else if degree == 5 || degree == 7 {
        ChordFunction::Dominant
    } else {
        ChordFunction::Chromatic
    }
}

/// The root-position chord of `quality` on scale degree `degree` (1-7) of the major scale of `key`.
pub open spec fn degree_chord(key: Note, degree: int, quality: ChordQuality) -> Chord {
    Chord {
        root: key.transposed(major_intervals()[(degree - 1) % 7] as int),
        quality,
        inversion: 0,
    }
}

/// The common progressions on `key`: I-V-vi-IV, ii7-V7-Imaj7, vi-IV-I-V and I-vi-ii-V.
pub open spec fn common_progressions(key: Note) -> Seq<Seq<Chord>> {
    seq![
        seq![
            degree_chord(key, 1, ChordQuality::Major),
            degree_chord(key, 5, ChordQuality::Major),
            degree_chord(key, 6, ChordQuality::Minor),
            degree_chord(key, 4, ChordQuality::Major),
        ],
        seq![
            degree_chord(key, 2, ChordQuality::Minor7),
            degree_chord(key, 5, ChordQuality::Dominant7),
            degree_chord(key, 1, ChordQuality::Major7),
        ],
        seq![
            degree_chord(key, 6, ChordQuality::Minor),
            degree_chord(key, 4, ChordQuality::Major),
            degree_chord(key, 1, ChordQuality::Major),
            degree_chord(key, 5, ChordQuality::Major),
        ],
        seq![
            degree_chord(key, 1, ChordQuality::Major),
            degree_chord(key, 6, ChordQuality::Minor),
            degree_chord(key, 2, ChordQuality::Minor),
            degree_chord(key, 5, ChordQuality::Major),
        ],
    ]
}

/// Every tone of `chord` is enabled in `sel`.
pub open spec fn fits_selection(chord: Chord, sel: KeySelection) -> bool {
    forall|i: int| 0 <= i < chord.tones().len() ==> sel.enabled(#[trigger] chord.tones()[i])
}

proof fn lemma_scale_shape(t: ScaleType)
    ensures
        scale_intervals(t).len() == 7,
        forall|k: int| 0 <= k < 7 ==> 0 <= #[trigger] scale_intervals(t)[k] <= 11,
{
}

/// Default music theory engine: scales, common progressions and chord functions
/// in every key.
#[derive(Clone)]
pub struct StandardMusicTheory;

impl StandardMusicTheory {
    /// Create a new theory engine.
    pub fn new() -> (r: Self) {
        StandardMusicTheory
    }

    /// Chord of `quality` on scale degree `degree` of the major scale of `key`
    /// (degrees above 7 wrap around).
    fn chord_for_degree(key: Note, degree: u8, quality: ChordQuality) -> (r: Chord)
        requires
            1 <= degree,
        ensures
            r == degree_chord(key, degree as int, quality),
    {
        let intervals: [i8; 7] = [0, 2, 4, 5, 7, 9, 11];
        assert(intervals@ == major_intervals());
        let degree_index = ((degree - 1) as usize) % 7;
        let root = key.transpose(intervals[degree_index]);
        Chord::new(root, quality)
    }

    /// Scale degree (1-7) of `note` in the major scale of `key`, or 0 if not in the scale.
    fn get_scale_degree(&self, note: Note, key: Note) -> (r: u8)
        ensures
            r == scale_degree(note, key),
    {
        let intervals: [u8; 7] = [0, 2, 4, 5, 7, 9, 11];
        let diff: i8 = note.as_semitone() as i8 - key.as_semitone() as i8;
        let target_interval: u8 = if diff < 0 {
            (diff + 12) as u8
        } else {
            diff as u8
        };
        assert(target_interval == (note.semitone() - key.semitone()) % 12);
        let mut i: usize = 0;
        while i < 7
            invariant
                i <= 7,
                intervals@ == seq![0u8, 2, 4, 5, 7, 9, 11],
                target_interval == (note.semitone() - key.semitone()) % 12,
                forall|j: int| 0 <= j < i ==> intervals@[j] != target_interval,
            decreases 7 - i,
        {
            if intervals[i] == target_interval {
                return (i + 1) as u8;
            }
            i = i + 1;
        }
        assert(intervals@[0] != target_interval && intervals@[1] != target_interval
            && intervals@[2] != target_interval && intervals@[3] != target_interval
            && intervals@[4] != target_interval && intervals@[5] != target_interval
            && intervals@[6] != target_interval);
        0
    }

    /// Notes of the scale of `scale_type` on `key`, from the tonic upwards.
    pub fn get_scale_notes(&self, key: Note, scale_type: ScaleType) -> (r: Vec<Note>)
        ensures
            r@ == scale_notes(key, scale_type),
    {
        let intervals: [i8; 7] = match scale_type {
            ScaleType::Major => [0, 2, 4, 5, 7, 9, 11],
            ScaleType::NaturalMinor => [0, 2, 3, 5, 7, 8, 10],
            ScaleType::HarmonicMinor => [0, 2, 3, 5, 7, 8, 11],
            ScaleType::MelodicMinor => [0, 2, 3, 5, 7, 9, 11],
            ScaleType::Dorian => [0, 2, 3, 5, 7, 9, 10],
            ScaleType::Mixolydian => [0, 2, 4, 5, 7, 9, 10],
        };
        assert(intervals@ == scale_intervals(scale_type));
        proof {
            lemma_scale_shape(scale_type);
        }
        let mut notes: Vec<Note> = Vec::new();
        let mut i: usize = 0;
        while i < 7
            invariant
                intervals@ == scale_intervals(scale_type),
                forall|k: int| 0 <= k < 7 ==> 0 <= #[trigger] scale_intervals(scale_type)[k] <= 11,
                i <= 7,
                notes@.len() == i,
                forall|k: int| 0 <= k < i ==> #[trigger] notes@[k] == scale_notes(key, scale_type)[k],
            decreases 7 - i,
        {
            notes.push(key.transpose(intervals[i]));
            i = i + 1;
        }
        assert(notes@ =~= scale_notes(key, scale_type));
        notes
    }

    /// Tones of a chord.
    pub fn get_chord_tones(&self, chord: &Chord) -> (r: Vec<Note>)
        ensures
            r@ == chord.tones(),
    {
        chord.chord_tones()
    }

    /// The common progressions on `key` (see `common_progressions`).
    pub fn get_common_progressions(&self, key: Note) -> (r: Vec<Vec<Chord>>)
        ensures
            r@.len() == 4,
            forall|i: int| 0 <= i < 4 ==> (#[trigger] r@[i])@ == common_progressions(key)[i],
    {
        // I-V-vi-IV (very common pop progression)
        let pop = vec![
            Self::chord_for_degree(key, 1, ChordQuality::Major),
            Self::chord_for_degree(key, 5, ChordQuality::Major),
            Self::chord_for_degree(key, 6, ChordQuality::Minor),
            Self::chord_for_degree(key, 4, ChordQuality::Major),
        ];
        // ii-V-I (jazz standard)
        let jazz = vec![
            Self::chord_for_degree(key, 2, ChordQuality::Minor7),
            Self::chord_for_degree(key, 5, ChordQuality::Dominant7),
            Self::chord_for_degree(key, 1, ChordQuality::Major7),
        ];
        // vi-IV-I-V (another common pop progression)
        let minor_pop = vec![
            Self::chord_for_degree(key, 6, ChordQuality::Minor),
            Self::chord_for_degree(key, 4, ChordQuality::Major),
            Self::chord_for_degree(key, 1, ChordQuality::Major),
            Self::chord_for_degree(key, 5, ChordQuality::Major),
        ];
        // I-vi-ii-V (circle progression)
        let circle = vec![
            Self::chord_for_degree(key, 1, ChordQuality::Major),
            Self::chord_for_degree(key, 6, ChordQuality::Minor),
            Self::chord_for_degree(key, 2, ChordQuality::Minor),
            Self::chord_for_degree(key, 5, ChordQuality::Major),
        ];
        assert(pop@ =~= common_progressions(key)[0]);
        assert(jazz@ =~= common_progressions(key)[1]);
        assert(minor_pop@ =~= common_progressions(key)[2]);
        assert(circle@ =~= common_progressions(key)[3]);
        vec![pop, jazz, minor_pop, circle]
    }

    /// Whether every tone of `chord` is enabled in `key_selection`.
    pub fn chord_fits_key(&self, chord: &Chord, key_selection: &KeySelection) -> (r: bool)
        ensures
            r == fits_selection(*chord, *key_selection),
    {
        let tones = chord.chord_tones();
        let mut i: usize = 0;
        while i < tones.len()
            invariant
                tones@ == chord.tones(),
                i <= tones.len(),
                forall|k: int| 0 <= k < i ==> key_selection.enabled(#[trigger] tones@[k]),
            decreases tones.len() - i,
        {
            if !key_selection.is_note_enabled(tones[i]) {
                return false;
            }
            i = i + 1;
        }
        true
    }

    /// Harmonic function of `chord` in the major key of `key`, from the scale degree of its root.
    pub fn chord_function(&self, chord: &Chord, key: Note) -> (r: ChordFunction)
        ensures
            r == degree_function(scale_degree(chord.root, key)),
    {
        let degree = self.get_scale_degree(chord.root, key);
        match degree {
            1 | 3 | 6 => ChordFunction::Tonic,
            2 | 4 => ChordFunction::Subdominant,
            5 | 7 => ChordFunction::Dominant,
            _ => ChordFunction::Chromatic,
        }
    }
}

impl Default for StandardMusicTheory {
    fn default() -> (r: Self) {
        Self::new()
    }
}


/// Moving `a` semitones above `key` lands `a` semitones above it, modulo 12.
proof fn lemma_offset_above(key: Note, a: int)
    ensures
        (key.transposed(a).semitone() - key.semitone()) % 12 == a % 12,
{
    let k = key.semitone();
    let t = key.transposed(a).semitone();
    assert(t == (k + a) % 12);
    assert((t - k) % 12 == a % 12) by (nonlinear_arith)
        requires
            t == (k + a) % 12,
    ;
}

/// Two notes with the same offset above a key are the same note.
proof fn lemma_same_offset(key: Note, m: Note, n: Note)
    requires
        (m.semitone() - key.semitone()) % 12 == (n.semitone() - key.semitone()) % 12,
    ensures
        m == n,
{
    let k = key.semitone();
    assert(m.semitone() == n.semitone()) by (nonlinear_arith)
        requires
            (m.semitone() - k) % 12 == (n.semitone() - k) % 12,
            0 <= m.semitone() < 12,
            0 <= n.semitone() < 12,
            0 <= k < 12,
    ;
}

/// The `j`-th note of a scale lies its interval above the key.
#[verifier::rlimit(30)]
proof fn lemma_scale_note_offset(key: Note, t: ScaleType, j: int)
    requires
        0 <= j < 7,
    ensures
        (scale_notes(key, t)[j].semitone() - key.semitone()) % 12 == scale_intervals(t)[j],
{
    lemma_scale_shape(t);
    let iv = scale_intervals(t)[j] as int;
    assert(scale_notes(key, t)[j] == key.transposed(iv));
    lemma_offset_above(key, iv);
}

/// A note belongs to the scale on `key` exactly when its offset above `key` is
/// one of the scale's intervals.
#[verifier::rlimit(30)]
proof fn lemma_scale_membership(key: Note, t: ScaleType, n: Note)
    ensures
        scale_notes(key, t).contains(n) <==> exists|j: int|
            0 <= j < 7 && #[trigger] scale_intervals(t)[j] == (n.semitone() - key.semitone()) % 12,
{
    lemma_scale_shape(t);
    let d = (n.semitone() - key.semitone()) % 12;
    let notes = scale_notes(key, t);
    if notes.contains(n) {
        let j = choose|j: int| 0 <= j < notes.len() && notes[j] == n;
        lemma_scale_note_offset(key, t, j);
        assert(scale_intervals(t)[j] == d);
    }
    if exists|j: int| 0 <= j < 7 && #[trigger] scale_intervals(t)[j] == d {
        let j = choose|j: int| 0 <= j < 7 && #[trigger] scale_intervals(t)[j] == d;
        lemma_scale_note_offset(key, t, j);
        lemma_same_offset(key, notes[j], n);
        assert(notes[j] == n);
    }
}

/// The major scale on `key` holds exactly the notes that a major key selection
/// of `key` enables, and the natural minor scale those of a minor key selection.
#[verifier::rlimit(30)]
pub proof fn law_scale_notes_match_key_selection(key: Note, sel: KeySelection, n: Note)
    ensures
        sel.is_major_scale(key) ==> (sel.enabled(n) <==> scale_notes(key, ScaleType::Major).contains(n)),
        sel.is_minor_scale(key) ==> (sel.enabled(n) <==> scale_notes(key, ScaleType::NaturalMinor).contains(n)),
{
    lemma_scale_membership(key, ScaleType::Major, n);
    lemma_scale_membership(key, ScaleType::NaturalMinor, n);
    let d = (n.semitone() - key.semitone()) % 12;
    if major_step(d) {
        assert(scale_intervals(ScaleType::Major)[0] == 0);
        assert(scale_intervals(ScaleType::Major)[1] == 2);
        assert(scale_intervals(ScaleType::Major)[2] == 4);
        assert(scale_intervals(ScaleType::Major)[3] == 5);
        assert(scale_intervals(ScaleType::Major)[4] == 7);
        assert(scale_intervals(ScaleType::Major)[5] == 9);
        assert(scale_intervals(ScaleType::Major)[6] == 11);
    }
    if minor_step(d) {
        assert(scale_intervals(ScaleType::NaturalMinor)[0] == 0);
        assert(scale_intervals(ScaleType::NaturalMinor)[1] == 2);
        assert(scale_intervals(ScaleType::NaturalMinor)[2] == 3);
        assert(scale_intervals(ScaleType::NaturalMinor)[3] == 5);
        assert(scale_intervals(ScaleType::NaturalMinor)[4] == 7);
        assert(scale_intervals(ScaleType::NaturalMinor)[5] == 8);
        assert(scale_intervals(ScaleType::NaturalMinor)[6] == 10);
    }
}

/// A chord built on a degree of the major scale fits the major key selection
/// when each of its intervals, added to the degree's offset, is a major-scale step.
#[verifier::rlimit(30)]
proof fn lemma_degree_chord_fits(key: Note, sel: KeySelection, degree: int, quality: ChordQuality)
    requires
        sel.is_major_scale(key),
        1 <= degree <= 7,
        forall|i: int|
            0 <= i < quality.interval_seq().len() ==> major_step(
                (major_intervals()[degree - 1] + #[trigger] quality.interval_seq()[i]) % 12,
            ),
    ensures
        fits_selection(degree_chord(key, degree, quality), sel),
{
    let c = degree_chord(key, degree, quality);
    let m = major_intervals()[degree - 1] as int;
    assert((degree - 1) % 7 == degree - 1);
    assert forall|i: int| 0 <= i < c.tones().len() implies sel.enabled(#[trigger] c.tones()[i]) by {
        let iv = quality.interval_seq()[i] as int;
        let root = key.transposed(m);
        let tone = c.tones()[i];
        assert(tone == root.transposed(iv));
        lemma_offset_above(key, m);
        lemma_offset_above(root, iv);
        let k = key.semitone();
        let r = root.semitone();
        let s = tone.semitone();
        assert((s - k) % 12 == (m + iv) % 12) by (nonlinear_arith)
            requires
                (r - k) % 12 == m % 12,
                (s - r) % 12 == iv % 12,
        ;
        assert(major_step((major_intervals()[degree - 1] + quality.interval_seq()[i]) % 12));
    }
}

/// Every chord of every common progression on `key` fits the major key selection
/// of `key`: the progressions are diatonic.
#[verifier::rlimit(30)]
pub proof fn law_common_progressions_diatonic(key: Note, sel: KeySelection)
    requires
        sel.is_major_scale(key),
    ensures
        forall|p: int, c: int|
            0 <= p < common_progressions(key).len() && 0 <= c < common_progressions(key)[p].len()
                ==> fits_selection(#[trigger] common_progressions(key)[p][c], sel),
{
    lemma_degree_chord_fits(key, sel, 1, ChordQuality::Major);
    lemma_degree_chord_fits(key, sel, 5, ChordQuality::Major);
    lemma_degree_chord_fits(key, sel, 6, ChordQuality::Minor);
    lemma_degree_chord_fits(key, sel, 4, ChordQuality::Major);
    lemma_degree_chord_fits(key, sel, 2, ChordQuality::Minor7);
    lemma_degree_chord_fits(key, sel, 5, ChordQuality::Dominant7);
    lemma_degree_chord_fits(key, sel, 1, ChordQuality::Major7);
    lemma_degree_chord_fits(key, sel, 2, ChordQuality::Minor);
}

/// In the key of `key`, a chord on the key note or on its relative minor has
/// tonic function, one on the dominant (a fifth up) dominant function, and one
/// on the subdominant (a fourth up) subdominant function.
pub proof fn law_key_functions(key: Note)
    ensures
        degree_function(scale_degree(key, key)) == ChordFunction::Tonic,
        degree_function(scale_degree(key.transposed(-3), key)) == ChordFunction::Tonic,
        degree_function(scale_degree(key.transposed(7), key)) == ChordFunction::Dominant,
        degree_function(scale_degree(key.transposed(5), key)) == ChordFunction::Subdominant,
{
    lemma_offset_above(key, -3);
    lemma_offset_above(key, 7);
    lemma_offset_above(key, 5);
}

} // verus!
