//! Pattern genres and descriptive pattern metadata.

use vstd::prelude::*;
use std::collections::HashMap;
use crate::melody::types::count_true;
use crate::timing::types::{ClickType, drum_list, synthetic_list};

verus! {

/// Pattern genre classification.
#[derive(Debug, Clone, Copy, PartialEq, Eq, Structural, Hash)]
pub enum PatternGenre {
    Rock,
    Jazz,
    Blues,
    Latin,
    Funk,
    Pop,
    Electronic,
    World,
    Classical,
    Experimental,
    Custom,
}

/// All genres, in declaration order.
pub open spec fn genre_list() -> Seq<PatternGenre> {
    seq![
        PatternGenre::Rock,
        PatternGenre::Jazz,
        PatternGenre::Blues,
        PatternGenre::Latin,
        PatternGenre::Funk,
        PatternGenre::Pop,
        PatternGenre::Electronic,
        PatternGenre::World,
        PatternGenre::Classical,
        PatternGenre::Experimental,
        PatternGenre::Custom,
    ]
}

impl PatternGenre {
    /// Display name of the genre.
    pub open spec fn display_view(self) -> Seq<char> {
        match self {
            PatternGenre::Rock => "Rock"@,
            PatternGenre::Jazz => "Jazz"@,
            PatternGenre::Blues => "Blues"@,
            PatternGenre::Latin => "Latin"@,
            PatternGenre::Funk => "Funk"@,
            PatternGenre::Pop => "Pop"@,
            PatternGenre::Electronic => "Electronic"@,
            PatternGenre::World => "World"@,
            PatternGenre::Classical => "Classical"@,
            PatternGenre::Experimental => "Experimental"@,
            PatternGenre::Custom => "Custom"@,
        }
    }

    /// All available genres.
    pub fn all() -> (r: Vec<PatternGenre>)
        ensures
            r@ == genre_list(),
    {
        let r = vec![
            PatternGenre::Rock,
            PatternGenre::Jazz,
            PatternGenre::Blues,
            PatternGenre::Latin,
            PatternGenre::Funk,
            PatternGenre::Pop,
            PatternGenre::Electronic,
            PatternGenre::World,
            PatternGenre::Classical,
            PatternGenre::Experimental,
            PatternGenre::Custom,
        ];
        assert(r@ =~= genre_list());
        r
    }

    /// Display name for the genre.
    pub fn display_name(&self) -> (r: &'static str)
        ensures
            r@ == self.display_view(),
    {
        match self {
            PatternGenre::Rock => "Rock",
            PatternGenre::Jazz => "Jazz",
            PatternGenre::Blues => "Blues",
            PatternGenre::Latin => "Latin",
            PatternGenre::Funk => "Funk",
            PatternGenre::Pop => "Pop",
            PatternGenre::Electronic => "Electronic",
            PatternGenre::World => "World",
            PatternGenre::Classical => "Classical",
            PatternGenre::Experimental => "Experimental",
            PatternGenre::Custom => "Custom",
        }
    }
}

/// Every genre appears once in the list of all genres.
pub proof fn law_genre_list_complete(g: PatternGenre)
    ensures
        genre_list().contains(g),
        genre_list().no_duplicates(),
{
    let l = genre_list();
    match g {
        PatternGenre::Rock => assert(l[0] == g),
        PatternGenre::Jazz => assert(l[1] == g),
        PatternGenre::Blues => assert(l[2] == g),
        PatternGenre::Latin => assert(l[3] == g),
        PatternGenre::Funk => assert(l[4] == g),
        PatternGenre::Pop => assert(l[5] == g),
        PatternGenre::Electronic => assert(l[6] == g),
        PatternGenre::World => assert(l[7] == g),
        PatternGenre::Classical => assert(l[8] == g),
        PatternGenre::Experimental => assert(l[9] == g),
        PatternGenre::Custom => assert(l[10] == g),
    }
}

/// Descriptive metadata of a pattern.
#[derive(Debug, Clone)]
pub struct PatternMetadata {
    /// Genre classification
    pub genre: PatternGenre,
    /// Difficulty level (1-5)
    pub difficulty: u8,
    /// Pattern description
    pub description: String,
    /// Tags for search and categorization
    pub tags: Vec<String>,
    /// Pattern author or source
    pub author: Option<String>,
    /// Additional custom metadata
    pub custom_fields: HashMap<String, String>,
}

impl Default for PatternMetadata {
    /// Custom genre, difficulty 1, empty description, no tags, no author, no custom fields.
    fn default() -> (r: Self)
        ensures
            r.genre == PatternGenre::Custom,
            r.difficulty == 1,
            r.description@ == Seq::<char>::empty(),
            r.tags@ == Seq::<String>::empty(),
            r.author is None,
            r.custom_fields@ == Map::<String, String>::empty(),
    {
        Self {
            genre: PatternGenre::Custom,
            difficulty: 1,
            description: String::new(),
            tags: Vec::new(),
            author: None,
            custom_fields: HashMap::new(),
        }
    }
}

/// How a proposed tempo range for a pattern fares.
#[derive(Debug, Clone, Copy, PartialEq, Eq, Structural)]
pub enum TempoRangeCheck {
    /// A usable range
    Valid,
    /// The minimum is not below the maximum
    NotIncreasing,
    /// The range reaches 0 BPM or beyond 300 BPM
    OutOfBounds,
}

/// Check a pattern tempo range: the minimum must be below the maximum, and the
/// range must lie within 1-300 BPM.
pub fn check_tempo_range(min_bpm: u32, max_bpm: u32) -> (r: TempoRangeCheck)
    ensures
        r == if min_bpm >= max_bpm {
            TempoRangeCheck::NotIncreasing
        } else if min_bpm == 0 || max_bpm > 300 {
            TempoRangeCheck::OutOfBounds
        } else {
            TempoRangeCheck::Valid
        },
{
    if min_bpm >= max_bpm {
        TempoRangeCheck::NotIncreasing
    } else if min_bpm == 0 || max_bpm > 300 {
        TempoRangeCheck::OutOfBounds
    } else {
        TempoRangeCheck::Valid
    }
}

/// The skill level a pattern's difficulty is meant for.
#[derive(Debug, Clone, Copy, PartialEq, Eq, Structural)]
pub enum DifficultyClass {
    /// Difficulty 1-2
    Beginner,
    /// Difficulty 3
    Intermediate,
    /// Difficulty 4-5
    Advanced,
}

/// The skill level of a difficulty: up to 2 for beginners, 3 for
/// intermediate players, above that for advanced players.
pub fn difficulty_class(difficulty: u8) -> (r: DifficultyClass)
    ensures
        r == if difficulty <= 2 {
            DifficultyClass::Beginner
        } else if difficulty == 3 {
            DifficultyClass::Intermediate
        } else {
            DifficultyClass::Advanced
        },
{
    if difficulty <= 2 {
        DifficultyClass::Beginner
    } else if difficulty == 3 {
        DifficultyClass::Intermediate
    } else {
        DifficultyClass::Advanced
    }
}

/// Whether a recommended tempo range `(min, max)` reaches into
/// `min_bpm..=max_bpm`: its minimum is at most `max_bpm` and its maximum at
/// least `min_bpm`.
pub fn tempo_ranges_overlap(range: (u32, u32), min_bpm: u32, max_bpm: u32) -> (r: bool)
    ensures
        r == (range.0 <= max_bpm && range.1 >= min_bpm),
{
    range.0 <= max_bpm && range.1 >= min_bpm
}

/// `tempo` lies in the range `(min, max)`, bounds included.
pub open spec fn tempo_in(range: (u32, u32), tempo: int) -> bool {
    range.0 <= tempo <= range.1
}

/// For ranges whose minimum is not above their maximum, two tempo ranges
/// overlap exactly when some tempo lies in both.
pub proof fn law_overlap_shares_tempo(range: (u32, u32), min_bpm: u32, max_bpm: u32)
    requires
        range.0 <= range.1,
        min_bpm <= max_bpm,
    ensures
        (range.0 <= max_bpm && range.1 >= min_bpm) <==> exists|t: int|
            #[trigger] tempo_in(range, t) && tempo_in((min_bpm, max_bpm), t),
{
    if range.0 <= max_bpm && range.1 >= min_bpm {
        let t: int = if range.0 >= min_bpm { range.0 as int } else { min_bpm as int };
        assert(tempo_in(range, t) && tempo_in((min_bpm, max_bpm), t));
    }
}

/// A difficulty brought into the 1-5 scale.
pub fn clamp_difficulty(difficulty: u8) -> (r: u8)
    ensures
        r == if difficulty < 1 {
            1
        } else if difficulty > 5 {
            5
        } else {
            difficulty
        },
{
    if difficulty < 1 {
        1
    } else if difficulty > 5 {
        5
    } else {
        difficulty
    }
}

/// Some beat of the pattern (its samples and accent) plays `c`.
pub open spec fn sample_appears(beats: Seq<(Vec<ClickType>, bool)>, c: ClickType) -> bool {
    exists|b: int, s: int|
        0 <= b < beats.len() && 0 <= s < beats[b].0@.len() && (#[trigger] beats[b].0@[s]) == c
}

/// Number of different sounds the pattern plays.
pub open spec fn sample_diversity(beats: Seq<(Vec<ClickType>, bool)>) -> nat {
    count_true((synthetic_list() + drum_list()).map_values(|c: ClickType| sample_appears(beats, c)))
}

/// Number of accented beats.
pub open spec fn accent_count(beats: Seq<(Vec<ClickType>, bool)>) -> nat
    decreases beats.len(),
{
    if beats.len() == 0 {
        0
    } else {
        accent_count(beats.drop_last()) + if beats.last().1 { 1nat } else { 0nat }
    }
}

/// Complexity score (0-100) of a pattern given by its beats' samples and accents:
/// two points per beat, five per different sound, one per accent.
pub open spec fn complexity(beats: Seq<(Vec<ClickType>, bool)>) -> int {
    let score = 2 * beats.len() + 5 * sample_diversity(beats) + accent_count(beats);
    if score > 100 {
        100
    } else {
        score as int
    }
}

proof fn lemma_count_true_step(s: Seq<bool>, k: int)
    requires
        0 <= k < s.len(),
    ensures
        count_true(s.take(k + 1)) == count_true(s.take(k)) + if s[k] { 1nat } else { 0nat },
{
    assert(s.take(k + 1).drop_last() =~= s.take(k));
}

proof fn lemma_count_true_bound(s: Seq<bool>)
    ensures
        count_true(s) <= s.len(),
    decreases s.len(),
{
    if s.len() > 0 {
        lemma_count_true_bound(s.drop_last());
    }
}

/// Whether some beat plays `c`.
fn plays_sample(beats: &Vec<(Vec<ClickType>, bool)>, c: ClickType) -> (r: bool)
    ensures
        r == sample_appears(beats@, c),
{
    let mut b: usize = 0;
    while b < beats.len()
        invariant
            b <= beats@.len(),
            forall|x: int, y: int|
                0 <= x < b && 0 <= y < beats@[x].0@.len() ==> (#[trigger] beats@[x].0@[y]) != c,
        decreases beats.len() - b,
    {
        let samples = &beats[b].0;
        let mut s: usize = 0;
        while s < samples.len()
            invariant
                b < beats@.len(),
                samples@ == beats@[b as int].0@,
                s <= samples@.len(),
                forall|y: int| 0 <= y < s ==> samples@[y] != c,
            decreases samples.len() - s,
        {
            if samples[s] == c {
                assert(beats@[b as int].0@[s as int] == c);
                return true;
            }
            s = s + 1;
        }
        b = b + 1;
    }
    false
}

/// Complexity score (0-100): two points per beat, five per different sound,
/// one per accent, capped at 100.
pub fn complexity_score(beats: &Vec<(Vec<ClickType>, bool)>) -> (r: u8)
    requires
        beats@.len() < usize::MAX / 4,
    ensures
        r == complexity(beats@),
{
    let mut accents: usize = 0;
    let mut b: usize = 0;
    while b < beats.len()
        invariant
            b <= beats@.len(),
            accents == accent_count(beats@.take(b as int)),
            accents <= b,
        decreases beats.len() - b,
    {
        assert(beats@.take(b + 1).drop_last() =~= beats@.take(b as int));
        if beats[b].1 {
            accents = accents + 1;
        }
        b = b + 1;
    }
    assert(beats@.take(beats@.len() as int) =~= beats@);
    let all = ClickType::all();
    let ghost appears = all@.map_values(|c: ClickType| sample_appears(beats@, c));
    let mut diversity: usize = 0;
    let mut i: usize = 0;
    while i < all.len()
        invariant
            all@ == synthetic_list() + drum_list(),
            appears == all@.map_values(|c: ClickType| sample_appears(beats@, c)),
            i <= all@.len(),
            diversity == count_true(appears.take(i as int)),
            diversity <= i,
        decreases all.len() - i,
    {
        proof {
            lemma_count_true_step(appears, i as int);
        }
        if plays_sample(beats, all[i]) {
            diversity = diversity + 1;
        }
        i = i + 1;
    }
    assert(appears.take(appears.len() as int) =~= appears);
    let score = beats.len() * 2 + diversity * 5 + accents;
    if score > 100 {
        100
    } else {
        score as u8
    }
}

} // verus!
