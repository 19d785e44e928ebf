//! Core musical types: notes, chord qualities, chords, timed chord events,
//! key selections and timeline configuration.

use vstd::prelude::*;
use vstd::string::*;

verus! {

/// Musical note of the chromatic scale (pitch class).
#[derive(Debug, Clone, Copy, PartialEq, Eq, Structural, Hash)]
pub enum Note {
    /// The note C
    C,
    /// The note C# (C sharp)
    CSharp,
    /// The note D
    D,
    /// The note D# (D sharp)
    DSharp,
    /// The note E
    E,
    /// The note F
    F,
    /// The note F# (F sharp)
    FSharp,
    /// The note G
    G,
    /// The note G# (G sharp)
    GSharp,
    /// The note A
    A,
    /// The note A# (A sharp)
    ASharp,
    /// The note B
    B,
}

/// The note whose pitch class is `i` modulo 12 (C = 0).
pub open spec fn note_at(i: int) -> Note {
    let m = i % 12;
    if m == 0 {
        Note::C
    } else if m == 1 {
        Note::CSharp
    } else if m == 2 {
        Note::D
    } else if m == 3 {
        Note::DSharp
    } else if m == 4 {
        Note::E
    } else if m == 5 {
        Note::F
    } else if m == 6 {
        Note::FSharp
    } else if m == 7 {
        Note::G
    } else if m == 8 {
        Note::GSharp
    } else if m == 9 {
        Note::A
    } else if m == 10 {
        Note::ASharp
    } else {
        Note::B
    }
}

impl Note {
    /// Pitch class of the note, C = 0 up to B = 11.
    pub open spec fn semitone(self) -> int {
        match self {
            Note::C => 0,
            Note::CSharp => 1,
            Note::D => 2,
            Note::DSharp => 3,
            Note::E => 4,
            Note::F => 5,
            Note::FSharp => 6,
            Note::G => 7,
            Note::GSharp => 8,
            Note::A => 9,
            Note::ASharp => 10,
            Note::B => 11,
        }
    }

    /// Display name of the note ("C", "C#", ...).
    pub open spec fn name_view(self) -> Seq<char> {
        match self {
            Note::C => "C"@,
            Note::CSharp => "C#"@,
            Note::D => "D"@,
            Note::DSharp => "D#"@,
            Note::E => "E"@,
            Note::F => "F"@,
            Note::FSharp => "F#"@,
            Note::G => "G"@,
            Note::GSharp => "G#"@,
            Note::A => "A"@,
            Note::ASharp => "A#"@,
            Note::B => "B"@,
        }
    }

    /// The note reached by moving `semitones` steps up (or down when negative).
    pub open spec fn transposed(self, semitones: int) -> Note {
        note_at(self.semitone() + semitones)
    }

    /// All 12 chromatic notes in ascending order, starting from C.
    pub fn all() -> (r: [Note; 12])
        ensures
            forall|i: int| 0 <= i < 12 ==> (#[trigger] r@[i]).semitone() == i,
    {
        [
            Note::C, Note::CSharp, Note::D, Note::DSharp,
            Note::E, Note::F, Note::FSharp, Note::G,
            Note::GSharp, Note::A, Note::ASharp, Note::B,
        ]
    }

    /// Note name as a string.
    pub fn name(&self) -> (r: &'static str)
        ensures
            r@ == self.name_view(),
    {
        match self {
            Note::C => "C",
            Note::CSharp => "C#",
            Note::D => "D",
            Note::DSharp => "D#",
            Note::E => "E",
            Note::F => "F",
            Note::FSharp => "F#",
            Note::G => "G",
            Note::GSharp => "G#",
            Note::A => "A",
            Note::ASharp => "A#",
            Note::B => "B",
        }
    }

    /// Note as an integer (0-11, C = 0).
    pub fn as_semitone(&self) -> (r: u8)
        ensures
            r == self.semitone(),
            r < 12,
    {
        match self {
            Note::C => 0,
            Note::CSharp => 1,
            Note::D => 2,
            Note::DSharp => 3,
            Note::E => 4,
            Note::F => 5,
            Note::FSharp => 6,
            Note::G => 7,
            Note::GSharp => 8,
            Note::A => 9,
            Note::ASharp => 10,
            Note::B => 11,
        }
    }

    /// Note from a semitone number, wrapping modulo 12.
    pub fn from_semitone(semitone: u8) -> (r: Note)
        ensures
            r == note_at(semitone as int),
            r.semitone() == semitone % 12,
    {
        let m: u8 = semitone % 12;
        if m == 0 {
            Note::C
        } else if m == 1 {
            Note::CSharp
        } else if m == 2 {
            Note::D
        } else if m == 3 {
            Note::DSharp
        } else if m == 4 {
            Note::E
        } else if m == 5 {
            Note::F
        } else if m == 6 {
            Note::FSharp
        } else if m == 7 {
            Note::G
        } else if m == 8 {
            Note::GSharp
        } else if m == 9 {
            Note::A
        } else if m == 10 {
            Note::ASharp
        } else {
            Note::B
        }
    }

    /// Transpose the note by a number of semitones (negative moves down).
    ///
    /// The sum of the pitch class and `semitones` must fit in an `i8`.
    pub fn transpose(&self, semitones: i8) -> (r: Note)
        requires
            self.semitone() + semitones <= i8::MAX,
        ensures
            r == self.transposed(semitones as int),
            r.semitone() == (self.semitone() + semitones) % 12,
    {
        let current = self.as_semitone() as i8;
        let sum: i8 = current + semitones;
        // shift into the non-negative range before reducing modulo 12
        let shifted: u16 = (sum as i16 + 132) as u16;
        let new_semitone: u8 = (shifted % 12) as u8;
        assert((sum + 132) % 12 == sum % 12) by {
            lemma_mod_shift(sum as int);
        }
        Note::from_semitone(new_semitone)
    }
}

/// Adding a multiple of 12 does not change a value modulo 12.
proof fn lemma_mod_shift(x: int)
    ensures
        (x + 132) % 12 == x % 12,
{
    assert((x + 132) % 12 == x % 12) by (nonlinear_arith);
}

/// Every note is the note at its own pitch class.
pub proof fn lemma_note_at_semitone(n: Note)
    ensures
        note_at(n.semitone()) == n,
{
}

/// The pitch class of `note_at(i)` is `i` modulo 12.
pub proof fn lemma_semitone_note_at(i: int)
    ensures
        note_at(i).semitone() == i % 12,
{
}

/// Quality of a chord (major, minor, ...).
#[derive(Debug, Clone, Copy, PartialEq, Eq, Structural, Hash)]
pub enum ChordQuality {
    /// Major triad (1-3-5)
    Major,
    /// Minor triad (1-b3-5)
    Minor,
    /// Diminished triad (1-b3-b5)
    Diminished,
    /// Augmented triad (1-3-#5)
    Augmented,
    /// Major seventh chord (1-3-5-7)
    Major7,
    /// Minor seventh chord (1-b3-5-b7)
    Minor7,
    /// Dominant seventh chord (1-3-5-b7)
    Dominant7,
    /// Suspended second chord (1-2-5)
    Sus2,
    /// Suspended fourth chord (1-4-5)
    Sus4,
    /// Minor-major seventh chord (1-b3-5-7)
    MinorMajor7,
}

impl ChordQuality {
    /// Chord symbol suffix.
    pub open spec fn symbol_view(self) -> Seq<char> {
        match self {
            ChordQuality::Major => ""@,
            ChordQuality::Minor => "m"@,
            ChordQuality::Diminished => "°"@,
            ChordQuality::Augmented => "+"@,
            ChordQuality::Major7 => "maj7"@,
            ChordQuality::Minor7 => "m7"@,
            ChordQuality::Dominant7 => "7"@,
            ChordQuality::Sus2 => "sus2"@,
            ChordQuality::Sus4 => "sus4"@,
            ChordQuality::MinorMajor7 => "m(maj7)"@,
        }
    }

    /// Intervals of the chord tones above the root, in semitones.
    pub open spec fn interval_seq(self) -> Seq<u8> {
        match self {
            ChordQuality::Major => seq![0u8, 4, 7],
            ChordQuality::Minor => seq![0u8, 3, 7],
            ChordQuality::Diminished => seq![0u8, 3, 6],
            ChordQuality::Augmented => seq![0u8, 4, 8],
            ChordQuality::Major7 => seq![0u8, 4, 7, 11],
            ChordQuality::Minor7 => seq![0u8, 3, 7, 10],
            ChordQuality::Dominant7 => seq![0u8, 4, 7, 10],
            ChordQuality::Sus2 => seq![0u8, 2, 7],
            ChordQuality::Sus4 => seq![0u8, 5, 7],
            ChordQuality::MinorMajor7 => seq![0u8, 3, 7, 11],
        }
    }

    /// Whether the quality is dissonant (asks for resolution).
    pub open spec fn dissonant(self) -> bool {
        match self {
            ChordQuality::Diminished | ChordQuality::Augmented | ChordQuality::Dominant7
            | ChordQuality::Sus2 | ChordQuality::Sus4 => true,
            _ => false,
        }
    }

    /// Chord symbol suffix ("", "m", "maj7", ...).
    pub fn symbol(&self) -> (r: &'static str)
        ensures
            r@ == self.symbol_view(),
    {
        match self {
            ChordQuality::Major => "",
            ChordQuality::Minor => "m",
            ChordQuality::Diminished => "°",
            ChordQuality::Augmented => "+",
            ChordQuality::Major7 => "maj7",
            ChordQuality::Minor7 => "m7",
            ChordQuality::Dominant7 => "7",
            ChordQuality::Sus2 => "sus2",
            ChordQuality::Sus4 => "sus4",
            ChordQuality::MinorMajor7 => "m(maj7)",
        }
    }

    /// Intervals from the root, in semitones.
    pub fn intervals(&self) -> (r: Vec<u8>)
        ensures
            r@ == self.interval_seq(),
    {
        match self {
            ChordQuality::Major => vec![0, 4, 7],
            ChordQuality::Minor => vec![0, 3, 7],
            ChordQuality::Diminished => vec![0, 3, 6],
            ChordQuality::Augmented => vec![0, 4, 8],
            ChordQuality::Major7 => vec![0, 4, 7, 11],
            ChordQuality::Minor7 => vec![0, 3, 7, 10],
            ChordQuality::Dominant7 => vec![0, 4, 7, 10],
            ChordQuality::Sus2 => vec![0, 2, 7],
            ChordQuality::Sus4 => vec![0, 5, 7],
            ChordQuality::MinorMajor7 => vec![0, 3, 7, 11],
        }
    }

    /// Whether the chord is dissonant (requires resolution).
    pub fn is_dissonant(&self) -> (r: bool)
        ensures
            r == self.dissonant(),
    {
        match self {
            ChordQuality::Diminished | ChordQuality::Augmented | ChordQuality::Dominant7
            | ChordQuality::Sus2 | ChordQuality::Sus4 => true,
            _ => false,
        }
    }
}

/// Every chord quality has three or four tones, all below an octave, root first.
pub proof fn lemma_interval_shape(q: ChordQuality)
    ensures
        3 <= q.interval_seq().len() <= 4,
        q.interval_seq()[0] == 0,
        forall|i: int| 0 <= i < q.interval_seq().len() ==> #[trigger] q.interval_seq()[i] < 12,
        forall|i: int, j: int|
            0 <= i < j < q.interval_seq().len() ==> q.interval_seq()[i] < q.interval_seq()[j],
{
}

/// Whether two tones of `intervals` lie a tritone (six semitones) apart.
pub open spec fn has_tritone(intervals: Seq<u8>) -> bool {
    exists|i: int, j: int|
        0 <= i < j < intervals.len() && #[trigger] intervals[j] - #[trigger] intervals[i] == 6
}

/// Each quality is built by its formula above the root: a minor third (3
/// semitones) for minor, diminished, minor seventh and minor-major seventh, a
/// major third (4) for major, augmented, major seventh and dominant seventh, a
/// major second (2) for sus2 and a perfect fourth (5) for sus4; then a
/// diminished fifth (6) for diminished, an augmented fifth (8) for augmented
/// and a perfect fifth (7) otherwise; the four seventh chords add a major
/// seventh (11: major seventh, minor-major seventh) or a minor seventh (10:
/// minor seventh, dominant seventh), and the others stop at the fifth.
pub proof fn law_quality_formula(q: ChordQuality)
    ensures
        q.interval_seq()[0] == 0,
        q.interval_seq()[1] == (match q {
            ChordQuality::Minor | ChordQuality::Diminished | ChordQuality::Minor7
            | ChordQuality::MinorMajor7 => 3u8,
            ChordQuality::Major | ChordQuality::Augmented | ChordQuality::Major7
            | ChordQuality::Dominant7 => 4u8,
            ChordQuality::Sus2 => 2u8,
            ChordQuality::Sus4 => 5u8,
        }),
        q.interval_seq()[2] == (match q {
            ChordQuality::Diminished => 6u8,
            ChordQuality::Augmented => 8u8,
            _ => 7u8,
        }),
        q.interval_seq().len() == (match q {
            ChordQuality::Major7 | ChordQuality::Minor7 | ChordQuality::Dominant7
            | ChordQuality::MinorMajor7 => 4nat,
            _ => 3nat,
        }),
        q.interval_seq().len() == 4 ==> q.interval_seq()[3] == (match q {
            ChordQuality::Major7 | ChordQuality::MinorMajor7 => 11u8,
            _ => 10u8,
        }),
{
}

/// The triads are related by single steps: minor lowers the major third by
/// a semitone, diminished lowers the minor triad's fifth by a semitone,
/// augmented raises the major triad's fifth by a semitone; each seventh chord
/// is its triad with the seventh on top.
pub proof fn law_quality_relations()
    ensures
        ChordQuality::Minor.interval_seq() == ChordQuality::Major.interval_seq().update(
            1,
            (ChordQuality::Major.interval_seq()[1] - 1) as u8,
        ),
        ChordQuality::Diminished.interval_seq() == ChordQuality::Minor.interval_seq().update(
            2,
            (ChordQuality::Minor.interval_seq()[2] - 1) as u8,
        ),
        ChordQuality::Augmented.interval_seq() == ChordQuality::Major.interval_seq().update(
            2,
            (ChordQuality::Major.interval_seq()[2] + 1) as u8,
        ),
        ChordQuality::Major7.interval_seq().drop_last() == ChordQuality::Major.interval_seq(),
        ChordQuality::Dominant7.interval_seq().drop_last() == ChordQuality::Major.interval_seq(),
        ChordQuality::Minor7.interval_seq().drop_last() == ChordQuality::Minor.interval_seq(),
        ChordQuality::MinorMajor7.interval_seq().drop_last() == ChordQuality::Minor.interval_seq(),
        ChordQuality::Major7.interval_seq().last() == ChordQuality::MinorMajor7.interval_seq().last(),
        ChordQuality::Minor7.interval_seq().last() == ChordQuality::Dominant7.interval_seq().last(),
        ChordQuality::Major7.interval_seq().last() == ChordQuality::Dominant7.interval_seq().last() + 1,
{
    assert(ChordQuality::Minor.interval_seq() =~= ChordQuality::Major.interval_seq().update(1, 3u8));
    assert(ChordQuality::Diminished.interval_seq() =~= ChordQuality::Minor.interval_seq().update(2, 6u8));
    assert(ChordQuality::Augmented.interval_seq() =~= ChordQuality::Major.interval_seq().update(2, 8u8));
    assert(ChordQuality::Major7.interval_seq().drop_last() =~= ChordQuality::Major.interval_seq());
    assert(ChordQuality::Dominant7.interval_seq().drop_last() =~= ChordQuality::Major.interval_seq());
    assert(ChordQuality::Minor7.interval_seq().drop_last() =~= ChordQuality::Minor.interval_seq());
    assert(ChordQuality::MinorMajor7.interval_seq().drop_last() =~= ChordQuality::Minor.interval_seq());
}

/// A quality is dissonant exactly when its chord asks for resolution: its
/// fifth is not perfect (diminished, augmented), it has no third (suspended
/// chords), or two of its tones form a tritone (dominant seventh).
pub proof fn law_dissonance(q: ChordQuality)
    ensures
        q.dissonant() <==> (q.interval_seq()[2] != 7 || !(q.interval_seq()[1] == 3
            || q.interval_seq()[1] == 4) || has_tritone(q.interval_seq())),
{
    let s = q.interval_seq();
    if q is Dominant7 {
        assert(s[3] - s[1] == 6);
    } else if q is Diminished {
        assert(s[2] - s[0] == 6);
    } else if !q.dissonant() {
        assert forall|i: int, j: int| 0 <= i < j < s.len() implies #[trigger] s[j] - #[trigger] s[i] != 6 by {
            if i == 0 {
                if j == 1 {} else if j == 2 {} else {}
            } else if i == 1 {
                if j == 2 {} else {}
            } else {
            }
        }
    }
}

/// A chord: root, quality and inversion.
#[derive(Debug, Clone, Copy, PartialEq, Eq, Structural, Hash)]
pub struct Chord {
    /// Root note of the chord
    pub root: Note,
    /// Quality/type of the chord (major, minor, etc.)
    pub quality: ChordQuality,
    /// Inversion of the chord (0 = root position, 1 = first inversion, etc.)
    pub inversion: u8,
}

impl Chord {
    /// The chord tones: the root transposed by each interval of the quality.
    pub open spec fn tones(self) -> Seq<Note> {
        self.quality.interval_seq().map_values(|iv: u8| self.root.transposed(iv as int))
    }

    /// The bass note of the inverted chord.
    pub open spec fn inversion_bass(self) -> Note {
        self.tones()[(self.inversion as int) % (self.tones().len() as int)]
    }

    /// The lowest note, taking the inversion into account.
    pub open spec fn bass(self) -> Note {
        if self.inversion == 0 {
            self.root
        } else {
            self.inversion_bass()
        }
    }

    /// The chord symbol, e.g. "Cmaj7", "Dm", "G7", "C/E".
    pub open spec fn symbol_view(self) -> Seq<char> {
        let base = self.root.name_view() + self.quality.symbol_view();
        if self.inversion > 0 {
            base + "/"@ + self.inversion_bass().name_view()
        } else {
            base
        }
    }

    /// Create a chord in root position.
    pub fn new(root: Note, quality: ChordQuality) -> (r: Self)
        ensures
            r == (Chord { root, quality, inversion: 0 }),
    {
        Self { root, quality, inversion: 0 }
    }

    /// Create a chord with a specific inversion.
    pub fn with_inversion(root: Note, quality: ChordQuality, inversion: u8) -> (r: Self)
        ensures
            r == (Chord { root, quality, inversion }),
    {
        Self { root, quality, inversion }
    }

    /// Chord symbol (e.g. "Cmaj7", "Dm", "G7").
    pub fn symbol(&self) -> (r: String)
        ensures
            r@ == self.symbol_view(),
    {
        let mut symbol = String::from_str(self.root.name());
        symbol.append(self.quality.symbol());
        if self.inversion > 0 {
            symbol.append("/");
            let bass = self.inversion_bass_note();
            symbol.append(bass.name());
        }
        symbol
    }

    /// Chord tones as notes.
    pub fn chord_tones(&self) -> (r: Vec<Note>)
        ensures
            r@ == self.tones(),
    {
        let intervals = self.quality.intervals();
        proof {
            lemma_interval_shape(self.quality);
        }
        let mut tones: Vec<Note> = Vec::new();
        let mut i: usize = 0;
        while i < intervals.len()
            invariant
                intervals@ == self.quality.interval_seq(),
                i <= intervals.len(),
                tones@.len() == i,
                forall|k: int| 0 <= k < i ==> #[trigger] tones@[k] == self.tones()[k],
            decreases intervals.len() - i,
        {
            proof {
                lemma_interval_shape(self.quality);
            }
            let interval = intervals[i];
            tones.push(self.root.transpose(interval as i8));
            i = i + 1;
        }
        assert(tones@ =~= self.tones());
        tones
    }

    /// Bass note (considering the inversion).
    pub fn bass_note(&self) -> (r: Note)
        ensures
            r == self.bass(),
    {
        if self.inversion == 0 {
            self.root
        } else {
            self.inversion_bass_note()
        }
    }

    /// Bass note for the chord's inversion.
    fn inversion_bass_note(&self) -> (r: Note)
        ensures
            r == self.inversion_bass(),
    {
        let chord_tones = self.chord_tones();
        proof {
            lemma_interval_shape(self.quality);
        }
        let inversion_index = (self.inversion as usize) % chord_tones.len();
        chord_tones[inversion_index]
    }

    /// Whether the chord contains a specific note.
    pub fn contains_note(&self, note: Note) -> (r: bool)
        ensures
            r == self.tones().contains(note),
    {
        let tones = self.chord_tones();
        let mut i: usize = 0;
        while i < tones.len()
            invariant
                tones@ == self.tones(),
                i <= tones.len(),
                forall|k: int| 0 <= k < i ==> tones@[k] != note,
            decreases tones.len() - i,
        {
            if tones[i] == note {
                assert(tones@[i as int] == note);
                return true;
            }
            i = i + 1;
        }
        false
    }

    /// Root position version of this chord.
    pub fn root_position(&self) -> (r: Chord)
        ensures
            r == (Chord { root: self.root, quality: self.quality, inversion: 0 }),
    {
        Chord::new(self.root, self.quality)
    }
}

/// A chord scheduled on the beat grid.
#[derive(Debug, Clone, Copy)]
pub struct ChordEvent {
    /// The chord to be played
    pub chord: Chord,
    /// Beat position when this chord starts
    pub beat_position: u32,
    /// Duration of this chord in beats
    pub duration_beats: u32,
    /// Key center for harmonic context
    pub key_center: Note,
    /// Whether this chord should be accented
    pub accent: bool,
}

impl ChordEvent {
    /// First beat after the event (start plus duration, as a mathematical integer).
    pub open spec fn end(self) -> int {
        self.beat_position + self.duration_beats
    }

    /// Whether the event sounds during `beat`.
    pub open spec fn active_at(self, beat: int) -> bool {
        self.beat_position <= beat < self.end()
    }

    /// Create a chord event without accent.
    pub fn new(chord: Chord, beat_position: u32, duration_beats: u32, key_center: Note) -> (r: Self)
        ensures
            r == (ChordEvent { chord, beat_position, duration_beats, key_center, accent: false }),
    {
        Self { chord, beat_position, duration_beats, key_center, accent: false }
    }

    /// Create an accented chord event.
    pub fn with_accent(chord: Chord, beat_position: u32, duration_beats: u32, key_center: Note) -> (r: Self)
        ensures
            r == (ChordEvent { chord, beat_position, duration_beats, key_center, accent: true }),
    {
        Self { chord, beat_position, duration_beats, key_center, accent: true }
    }

    /// End beat position (start plus duration); the sum must fit in a `u32`.
    pub fn end_beat(&self) -> (r: u32)
        requires
            self.end() <= u32::MAX,
        ensures
            r == self.end(),
    {
        self.beat_position + self.duration_beats
    }

    /// Whether the chord is playing during the given beat.
    pub fn is_active_at_beat(&self, beat: u32) -> (r: bool)
        ensures
            r == self.active_at(beat as int),
    {
        let end: u64 = self.beat_position as u64 + self.duration_beats as u64;
        beat >= self.beat_position && (beat as u64) < end
    }
}

/// Scale degrees of the major scale, in semitones above the tonic.
pub open spec fn major_step(offset: int) -> bool {
    offset == 0 || offset == 2 || offset == 4 || offset == 5 || offset == 7 || offset == 9
        || offset == 11
}

/// Scale degrees of the natural minor scale, in semitones above the tonic.
pub open spec fn minor_step(offset: int) -> bool {
    offset == 0 || offset == 2 || offset == 3 || offset == 5 || offset == 7 || offset == 8
        || offset == 10
}

/// Number of `true` entries in a sequence.
pub open spec fn count_true(s: Seq<bool>) -> nat
    decreases s.len(),
{
    if s.len() == 0 {
        0
    } else {
        count_true(s.drop_last()) + if s.last() { 1nat } else { 0nat }
    }
}

/// Which of the 12 chromatic notes are enabled, plus an optional key center.
#[derive(Debug, Clone)]
pub struct KeySelection {
    /// Array indicating which of the 12 chromatic notes are enabled
    pub enabled_notes: [bool; 12],
    /// Suggested primary key center for harmonic context
    pub primary_key: Option<Note>,
}

impl KeySelection {
    /// Whether `n` is enabled.
    pub open spec fn enabled(self, n: Note) -> bool {
        self.enabled_notes@[n.semitone()]
    }

    /// The enabled notes are exactly those of the major scale on `key`.
    pub open spec fn is_major_scale(self, key: Note) -> bool {
        forall|n: Note| #[trigger] self.enabled(n) == major_step((n.semitone() - key.semitone()) % 12)
    }

    /// The enabled notes are exactly those of the natural minor scale on `key`.
    pub open spec fn is_minor_scale(self, key: Note) -> bool {
        forall|n: Note| #[trigger] self.enabled(n) == minor_step((n.semitone() - key.semitone()) % 12)
    }

    /// Create a key selection with all notes disabled.
    pub fn new() -> (r: Self)
        ensures
            r.primary_key.is_none(),
            forall|j: int| 0 <= j < 12 ==> !(#[trigger] r.enabled_notes@[j]),
            forall|n: Note| !(#[trigger] r.enabled(n)),
    {
        Self { enabled_notes: [false; 12], primary_key: None }
    }

    /// Key selection holding the major scale of `key`.
    pub fn for_major_key(key: Note) -> (r: Self)
        ensures
            r.primary_key == Some(key),
            r.is_major_scale(key),
    {
        let mut selection = Self::new();
        selection.primary_key = Some(key);
        let steps: [i8; 7] = [0, 2, 4, 5, 7, 9, 11];
        let mut i: usize = 0;
        while i < 7
            invariant
                i <= 7,
                selection.primary_key == Some(key),
                steps@ == major_intervals(),
                forall|j: int|
                    0 <= j < 12 ==> #[trigger] selection.enabled_notes@[j] == scale_hit(
                        steps@,
                        i as int,
                        key.semitone(),
                        j,
                    ),
            decreases 7 - i,
        {
            let interval = steps[i];
            let note_index = key.transpose(interval).as_semitone() as usize;
            selection.enabled_notes[note_index] = true;
            i = i + 1;
        }
        proof {
            lemma_major_hits(key.semitone());
            assert forall|n: Note|
                #[trigger] selection.enabled(n) == major_step(
                    (n.semitone() - key.semitone()) % 12,
                ) by {
                assert(selection.enabled_notes@[n.semitone()] == scale_hit(
                    major_intervals(),
                    7,
                    key.semitone(),
                    n.semitone(),
                ));
            }
        }
        selection
    }

    /// Key selection holding the natural minor scale of `key`.
    pub fn for_minor_key(key: Note) -> (r: Self)
        ensures
            r.primary_key == Some(key),
            r.is_minor_scale(key),
    {
        let mut selection = Self::new();
        selection.primary_key = Some(key);
        let steps: [i8; 7] = [0, 2, 3, 5, 7, 8, 10];
        let mut i: usize = 0;
        while i < 7
            invariant
                i <= 7,
                selection.primary_key == Some(key),
                steps@ == minor_intervals(),
                forall|j: int|
                    0 <= j < 12 ==> #[trigger] selection.enabled_notes@[j] == scale_hit(
                        steps@,
                        i as int,
                        key.semitone(),
                        j,
                    ),
            decreases 7 - i,
        {
            let interval = steps[i];
            let note_index = key.transpose(interval).as_semitone() as usize;
            selection.enabled_notes[note_index] = true;
            i = i + 1;
        }
        proof {
            lemma_minor_hits(key.semitone());
            assert forall|n: Note|
                #[trigger] selection.enabled(n) == minor_step(
                    (n.semitone() - key.semitone()) % 12,
                ) by {
                assert(selection.enabled_notes@[n.semitone()] == scale_hit(
                    minor_intervals(),
                    7,
                    key.semitone(),
                    n.semitone(),
                ));
            }
        }
        selection
    }

    /// Key selection for a major or a natural minor key.
    pub fn for_key(key: Note, is_major: bool) -> (r: Self)
        ensures
            r.primary_key == Some(key),
            is_major ==> r.is_major_scale(key),
            !is_major ==> r.is_minor_scale(key),
    {
        if is_major {
            Self::for_major_key(key)
        } else {
            Self::for_minor_key(key)
        }
    }

    /// Key selection with all chromatic notes enabled and no key center.
    pub fn all_notes() -> (r: Self)
        ensures
            r.primary_key.is_none(),
            forall|j: int| 0 <= j < 12 ==> #[trigger] r.enabled_notes@[j],
            forall|n: Note| #[trigger] r.enabled(n),
    {
        Self { enabled_notes: [true; 12], primary_key: None }
    }

    /// The enabled notes in ascending chromatic order.
    pub fn enabled_note_list(&self) -> (r: Vec<Note>)
        ensures
            forall|n: Note| r@.contains(n) <==> self.enabled(n),
            forall|i: int, j: int|
                0 <= i < j < r@.len() ==> (#[trigger] r@[i]).semitone() < (#[trigger] r@[j]).semitone(),
    {
        let all = Note::all();
        let mut list: Vec<Note> = Vec::new();
        let mut i: usize = 0;
        while i < 12
            invariant
                i <= 12,
                forall|k: int| 0 <= k < 12 ==> (#[trigger] all@[k]).semitone() == k,
                forall|k: int| 0 <= k < list@.len() ==> (#[trigger] list@[k]).semitone() < i,
                forall|k: int| 0 <= k < list@.len() ==> self.enabled(#[trigger] list@[k]),
                forall|n: Note| n.semitone() < i && self.enabled(n) ==> list@.contains(n),
                forall|a: int, b: int|
                    0 <= a < b < list@.len() ==> (#[trigger] list@[a]).semitone() < (
                    #[trigger] list@[b]).semitone(),
            decreases 12 - i,
        {
            let note = all[i];
            if self.enabled_notes[i] {
                let ghost old_list = list@;
                list.push(note);
                proof {
                    assert forall|n: Note|
                        n.semitone() < i + 1 && self.enabled(n) implies list@.contains(n) by {
                        if n.semitone() < i {
                            let k = choose|k: int| 0 <= k < old_list.len() && old_list[k] == n;
                            assert(list@[k] == n);
                        } else {
                            assert(n == note) by {
                                lemma_note_at_semitone(n);
                                lemma_note_at_semitone(note);
                            }
                            assert(list@[list@.len() - 1] == n);
                        }
                    }
                }
            } else {
                proof {
                    assert forall|n: Note|
                        n.semitone() < i + 1 && self.enabled(n) implies list@.contains(n) by {
                        if n.semitone() == i {
                            assert(self.enabled_notes@[i as int]);
                        }
                    }
                }
            }
            i = i + 1;
        }
        list
    }

    /// Whether a note is enabled.
    pub fn is_note_enabled(&self, note: Note) -> (r: bool)
        ensures
            r == self.enabled(note),
    {
        self.enabled_notes[note.as_semitone() as usize]
    }

    /// Enable or disable a note.
    pub fn set_note_enabled(&mut self, note: Note, enabled: bool)
        ensures
            final(self).primary_key == old(self).primary_key,
            final(self).enabled(note) == enabled,
            forall|n: Note| n != note ==> #[trigger] final(self).enabled(n) == old(self).enabled(n),
    {
        self.enabled_notes[note.as_semitone() as usize] = enabled;
        proof {
            assert forall|n: Note| n != note implies #[trigger] self.enabled(n) == old(self).enabled(n) by {
                assert(n.semitone() != note.semitone()) by {
                    lemma_note_at_semitone(n);
                    lemma_note_at_semitone(note);
                }
            }
        }
    }

    /// Number of enabled notes.
    pub fn enabled_count(&self) -> (r: usize)
        ensures
            r == count_true(self.enabled_notes@),
    {
        let mut count: usize = 0;
        let mut i: usize = 0;
        while i < 12
            invariant
                i <= 12,
                count == count_true(self.enabled_notes@.take(i as int)),
                count <= i,
            decreases 12 - i,
        {
            proof {
                assert(self.enabled_notes@.take(i + 1).drop_last() =~= self.enabled_notes@.take(
                    i as int,
                ));
            }
            if self.enabled_notes[i] {
                count = count + 1;
            }
            i = i + 1;
        }
        assert(self.enabled_notes@.take(12) =~= self.enabled_notes@);
        count
    }
}

/// Semitone offsets of the major scale, as used to build major key selections.
pub open spec fn major_intervals() -> Seq<i8> {
    seq![0i8, 2, 4, 5, 7, 9, 11]
}

/// Semitone offsets of the natural minor scale, as used to build minor key selections.
pub open spec fn minor_intervals() -> Seq<i8> {
    seq![0i8, 2, 3, 5, 7, 8, 10]
}

/// Whether some interval among the first `n` of `ivs`, above `key`, lands on pitch class `j`.
pub open spec fn scale_hit(ivs: Seq<i8>, n: int, key: int, j: int) -> bool
    decreases n,
{
    if n <= 0 {
        false
    } else {
        scale_hit(ivs, n - 1, key, j) || (key + ivs[n - 1]) % 12 == j
    }
}

proof fn lemma_major_hits(key: int)
    requires
        0 <= key < 12,
    ensures
        forall|j: int|
            0 <= j < 12 ==> #[trigger] scale_hit(major_intervals(), 7, key, j)
                == major_step((j - key) % 12),
{
    reveal_with_fuel(scale_hit, 8);
}

proof fn lemma_minor_hits(key: int)
    requires
        0 <= key < 12,
    ensures
        forall|j: int|
            0 <= j < 12 ==> #[trigger] scale_hit(minor_intervals(), 7, key, j)
                == minor_step((j - key) % 12),
{
    reveal_with_fuel(scale_hit, 8);
}

impl Default for KeySelection {
    /// The default selection is the C major scale.
    fn default() -> (r: Self)
        ensures
            r.primary_key == Some(Note::C),
            r.is_major_scale(Note::C),
    {
        Self::for_major_key(Note::C)
    }
}

/// Timeline window configuration.
#[derive(Debug, Clone)]
pub struct TimelineConfig {
    /// How many measures to show ahead in the timeline
    pub measures_ahead: u8,
    /// Default chord duration in beats
    pub beats_per_chord: u8,
    /// Whether to auto-advance timeline with metronome
    pub auto_advance: bool,
    /// Whether to highlight key center changes in the display
    pub show_key_changes: bool,
}

impl Default for TimelineConfig {
    /// Two measures ahead, four beats per chord, auto-advance and key-change display on.
    fn default() -> (r: Self)
        ensures
            r.measures_ahead == 2,
            r.beats_per_chord == 4,
            r.auto_advance,
            r.show_key_changes,
    {
        Self { measures_ahead: 2, beats_per_chord: 4, auto_advance: true, show_key_changes: true }
    }
}

/// Transposition composes by adding the steps; 0 and 12 steps leave a note unchanged.
pub proof fn law_transpose_compose(n: Note, a: int, b: int)
    ensures
        n.transposed(a).transposed(b) == n.transposed(a + b),
        n.transposed(0) == n,
        n.transposed(12) == n,
        n.transposed(a).transposed(-a) == n,
{
    let x = n.semitone() + a;
    assert(note_at(x).semitone() == x % 12);
    assert((x % 12 + b) % 12 == (x + b) % 12) by {
        lemma_mod_add_left(x, b);
    }
    assert((x % 12 - a) % 12 == (x - a) % 12) by {
        lemma_mod_add_left(x, -a);
    }
}

proof fn lemma_mod_add_left(x: int, b: int)
    ensures
        (x % 12 + b) % 12 == (x + b) % 12,
{
    assert((x % 12 + b) % 12 == (x + b) % 12) by (nonlinear_arith);
}

/// Converting a note to its semitone and back gives the same note, and every
/// semitone number maps to the note of its pitch class.
pub proof fn law_semitone_round_trip(n: Note, s: int)
    ensures
        note_at(n.semitone()) == n,
        0 <= n.semitone() < 12,
        note_at(s).semitone() == s % 12,
{
}

/// The tones of a chord start at its root, follow its intervals, are pairwise
/// distinct, and include its bass note.
pub proof fn law_chord_tones(c: Chord)
    ensures
        c.tones().len() == c.quality.interval_seq().len(),
        c.tones()[0] == c.root,
        c.tones().contains(c.root),
        c.tones().contains(c.bass()),
        c.tones().no_duplicates(),
{
    lemma_interval_shape(c.quality);
    let t = c.tones();
    assert(t[0] == c.root.transposed(0));
    law_transpose_compose(c.root, 0, 0);
    let k = (c.inversion as int) % (t.len() as int);
    assert(0 <= k < t.len());
    if c.inversion != 0 {
        assert(t[k] == c.bass());
    }
    assert forall|i: int, j: int| 0 <= i < t.len() && 0 <= j < t.len() && i != j implies t[i]
        != t[j] by {
        let iv = c.quality.interval_seq();
        let r = c.root.semitone();
        assert(t[i].semitone() == (r + iv[i]) % 12);
        assert(t[j].semitone() == (r + iv[j]) % 12);
        assert((r + iv[i]) % 12 != (r + iv[j]) % 12) by {
            lemma_distinct_mod(r, iv[i] as int, iv[j] as int);
        }
    }
}

proof fn lemma_distinct_mod(r: int, a: int, b: int)
    requires
        0 <= r < 12,
        0 <= a < 12,
        0 <= b < 12,
        a != b,
    ensures
        (r + a) % 12 != (r + b) % 12,
{
}

/// Number of `true` entries among the first 12 of `s`, entry by entry.
pub open spec fn count_twelve(s: Seq<bool>) -> int {
    (if s[0] { 1int } else { 0 }) + (if s[1] { 1int } else { 0 }) + (if s[2] { 1int } else { 0 })
        + (if s[3] { 1int } else { 0 }) + (if s[4] { 1int } else { 0 }) + (if s[5] { 1int } else { 0 })
        + (if s[6] { 1int } else { 0 }) + (if s[7] { 1int } else { 0 }) + (if s[8] { 1int } else { 0 })
        + (if s[9] { 1int } else { 0 }) + (if s[10] { 1int } else { 0 }) + (if s[11] { 1int } else { 0 })
}

/// Number of `true` entries of a 12-entry sequence, entry by entry.
proof fn lemma_count_twelve(s: Seq<bool>)
    requires
        s.len() == 12,
    ensures
        count_true(s) == count_twelve(s),
{
    assert(s.take(0) =~= Seq::<bool>::empty());
    lemma_count_step(s, 0);
    lemma_count_step(s, 1);
    lemma_count_step(s, 2);
    lemma_count_step(s, 3);
    lemma_count_step(s, 4);
    lemma_count_step(s, 5);
    lemma_count_step(s, 6);
    lemma_count_step(s, 7);
    lemma_count_step(s, 8);
    lemma_count_step(s, 9);
    lemma_count_step(s, 10);
    lemma_count_step(s, 11);
    assert(s.take(12) =~= s);
}

proof fn lemma_count_step(s: Seq<bool>, k: int)
    requires
        0 <= k < s.len(),
    ensures
        count_true(s.take(k + 1)) == count_true(s.take(k)) + if s[k] { 1int } else { 0 },
{
    assert(s.take(k + 1).drop_last() =~= s.take(k));
}

/// Whether pitch-class offset `offset` is a step of the major (`major`) or
/// natural minor scale.
pub open spec fn scale_step(major: bool, offset: int) -> bool {
    if major {
        major_step(offset)
    } else {
        minor_step(offset)
    }
}

/// A 12-entry sequence marking the steps of a major or minor scale on `k` has seven `true` entries.
#[verifier::rlimit(30)]
proof fn lemma_rotated_count(k: int, s: Seq<bool>, major: bool)
    requires
        0 <= k < 12,
        s.len() == 12,
        forall|j: int| 0 <= j < 12 ==> #[trigger] s[j] == scale_step(major, (j - k) % 12),
    ensures
        count_twelve(s) == 7,
{
    assert forall|j: int| 0 <= j < 12 implies #[trigger] s[j] == scale_step(
        major,
        if j >= k {
            j - k
        } else {
            j - k + 12
        },
    ) by {
        assert(s[j] == scale_step(major, (j - k) % 12));
    }
    if k == 0 {
        assert(s[0] == scale_step(major, 0) && s[1] == scale_step(major, 1) && s[2] == scale_step(major, 2) && s[3] == scale_step(major, 3));
        assert(s[4] == scale_step(major, 4) && s[5] == scale_step(major, 5) && s[6] == scale_step(major, 6) && s[7] == scale_step(major, 7));
        assert(s[8] == scale_step(major, 8) && s[9] == scale_step(major, 9) && s[10] == scale_step(major, 10) && s[11] == scale_step(major, 11));
    } else if k == 1 {
        assert(s[0] == scale_step(major, 11) && s[1] == scale_step(major, 0) && s[2] == scale_step(major, 1) && s[3] == scale_step(major, 2));
        assert(s[4] == scale_step(major, 3) && s[5] == scale_step(major, 4) && s[6] == scale_step(major, 5) && s[7] == scale_step(major, 6));
        assert(s[8] == scale_step(major, 7) && s[9] == scale_step(major, 8) && s[10] == scale_step(major, 9) && s[11] == scale_step(major, 10));
    } else if k == 2 {
        assert(s[0] == scale_step(major, 10) && s[1] == scale_step(major, 11) && s[2] == scale_step(major, 0) && s[3] == scale_step(major, 1));
        assert(s[4] == scale_step(major, 2) && s[5] == scale_step(major, 3) && s[6] == scale_step(major, 4) && s[7] == scale_step(major, 5));
        assert(s[8] == scale_step(major, 6) && s[9] == scale_step(major, 7) && s[10] == scale_step(major, 8) && s[11] == scale_step(major, 9));
    } else if k == 3 {
        assert(s[0] == scale_step(major, 9) && s[1] == scale_step(major, 10) && s[2] == scale_step(major, 11) && s[3] == scale_step(major, 0));
        assert(s[4] == scale_step(major, 1) && s[5] == scale_step(major, 2) && s[6] == scale_step(major, 3) && s[7] == scale_step(major, 4));
        assert(s[8] == scale_step(major, 5) && s[9] == scale_step(major, 6) && s[10] == scale_step(major, 7) && s[11] == scale_step(major, 8));
    } else if k == 4 {
        assert(s[0] == scale_step(major, 8) && s[1] == scale_step(major, 9) && s[2] == scale_step(major, 10) && s[3] == scale_step(major, 11));
        assert(s[4] == scale_step(major, 0) && s[5] == scale_step(major, 1) && s[6] == scale_step(major, 2) && s[7] == scale_step(major, 3));
        assert(s[8] == scale_step(major, 4) && s[9] == scale_step(major, 5) && s[10] == scale_step(major, 6) && s[11] == scale_step(major, 7));
    } else if k == 5 {
        assert(s[0] == scale_step(major, 7) && s[1] == scale_step(major, 8) && s[2] == scale_step(major, 9) && s[3] == scale_step(major, 10));
        assert(s[4] == scale_step(major, 11) && s[5] == scale_step(major, 0) && s[6] == scale_step(major, 1) && s[7] == scale_step(major, 2));
        assert(s[8] == scale_step(major, 3) && s[9] == scale_step(major, 4) && s[10] == scale_step(major, 5) && s[11] == scale_step(major, 6));
    } else if k == 6 {
        assert(s[0] == scale_step(major, 6) && s[1] == scale_step(major, 7) && s[2] == scale_step(major, 8) && s[3] == scale_step(major, 9));
        assert(s[4] == scale_step(major, 10) && s[5] == scale_step(major, 11) && s[6] == scale_step(major, 0) && s[7] == scale_step(major, 1));
        assert(s[8] == scale_step(major, 2) && s[9] == scale_step(major, 3) && s[10] == scale_step(major, 4) && s[11] == scale_step(major, 5));
    } else if k == 7 {
        assert(s[0] == scale_step(major, 5) && s[1] == scale_step(major, 6) && s[2] == scale_step(major, 7) && s[3] == scale_step(major, 8));
        assert(s[4] == scale_step(major, 9) && s[5] == scale_step(major, 10) && s[6] == scale_step(major, 11) && s[7] == scale_step(major, 0));
        assert(s[8] == scale_step(major, 1) && s[9] == scale_step(major, 2) && s[10] == scale_step(major, 3) && s[11] == scale_step(major, 4));
    } else if k == 8 {
        assert(s[0] == scale_step(major, 4) && s[1] == scale_step(major, 5) && s[2] == scale_step(major, 6) && s[3] == scale_step(major, 7));
        assert(s[4] == scale_step(major, 8) && s[5] == scale_step(major, 9) && s[6] == scale_step(major, 10) && s[7] == scale_step(major, 11));
        assert(s[8] == scale_step(major, 0) && s[9] == scale_step(major, 1) && s[10] == scale_step(major, 2) && s[11] == scale_step(major, 3));
    } else if k == 9 {
        assert(s[0] == scale_step(major, 3) && s[1] == scale_step(major, 4) && s[2] == scale_step(major, 5) && s[3] == scale_step(major, 6));
        assert(s[4] == scale_step(major, 7) && s[5] == scale_step(major, 8) && s[6] == scale_step(major, 9) && s[7] == scale_step(major, 10));
        assert(s[8] == scale_step(major, 11) && s[9] == scale_step(major, 0) && s[10] == scale_step(major, 1) && s[11] == scale_step(major, 2));
    } else if k == 10 {
        assert(s[0] == scale_step(major, 2) && s[1] == scale_step(major, 3) && s[2] == scale_step(major, 4) && s[3] == scale_step(major, 5));
        assert(s[4] == scale_step(major, 6) && s[5] == scale_step(major, 7) && s[6] == scale_step(major, 8) && s[7] == scale_step(major, 9));
        assert(s[8] == scale_step(major, 10) && s[9] == scale_step(major, 11) && s[10] == scale_step(major, 0) && s[11] == scale_step(major, 1));
    } else {
        assert(s[0] == scale_step(major, 1) && s[1] == scale_step(major, 2) && s[2] == scale_step(major, 3) && s[3] == scale_step(major, 4));
        assert(s[4] == scale_step(major, 5) && s[5] == scale_step(major, 6) && s[6] == scale_step(major, 7) && s[7] == scale_step(major, 8));
        assert(s[8] == scale_step(major, 9) && s[9] == scale_step(major, 10) && s[10] == scale_step(major, 11) && s[11] == scale_step(major, 0));
    }
}

/// A major or a natural minor key selection has exactly seven notes enabled.
#[verifier::rlimit(30)]
pub proof fn law_scale_has_seven_notes(sel: KeySelection, key: Note)
    requires
        sel.is_major_scale(key) || sel.is_minor_scale(key),
    ensures
        count_true(sel.enabled_notes@) == 7,
{
    let s = sel.enabled_notes@;
    let k = key.semitone();
    let major = sel.is_major_scale(key);
    lemma_count_twelve(s);
    assert forall|j: int| 0 <= j < 12 implies #[trigger] s[j] == scale_step(major, (j - k) % 12) by {
        assert(note_at(j).semitone() == j);
        assert(s[j] == sel.enabled(note_at(j)));
    }
    lemma_rotated_count(k, s, major);
}

/// A major key and its relative minor (three semitones down) enable the same notes.
pub proof fn law_relative_minor_same_notes(major: KeySelection, minor: KeySelection, key: Note)
    requires
        major.is_major_scale(key),
        minor.is_minor_scale(key.transposed(-3)),
    ensures
        forall|n: Note| #[trigger] major.enabled(n) == minor.enabled(n),
{
    assert forall|n: Note| #[trigger] major.enabled(n) == minor.enabled(n) by {
        let k = key.semitone();
        let m = key.transposed(-3).semitone();
        assert(m == (k - 3) % 12);
        assert(major.enabled(n) == major_step((n.semitone() - k) % 12));
        assert(minor.enabled(n) == minor_step((n.semitone() - m) % 12));
    }
}

} // verus!
