//! Chord generation support: the context a generator decides in, and the
//! linear congruential step behind the default randomizer.

use vstd::prelude::*;
use super::theory::{StandardMusicTheory, common_progressions};
use super::types::{Chord, Note};
use crate::timing::TimeSignature;

verus! {

/// How many recent chords a generation context remembers.
pub const HISTORY_LEN: usize = 8;

/// Generation context for informed chord decisions: where in the measure the
/// next chord falls and which chords came just before.
#[derive(Debug, Clone)]
pub struct GenerationContext {
    pub current_beat: u32,
    /// 1-based position of the current beat within its measure
    pub measure_position: u8,
    /// The last chords, oldest first (at most eight once full)
    pub recent_chords: Vec<Chord>,
    pub time_signature: TimeSignature,
    pub current_key: Option<Note>,
}

/// Whether `chord` occurs among the last `lookback` chords of `recent`.
pub open spec fn used_recently(recent: Seq<Chord>, chord: Chord, lookback: int) -> bool {
    let start = if recent.len() > lookback {
        recent.len() - lookback
    } else {
        0
    };
    exists|i: int| start <= i < recent.len() && recent[i] == chord
}

/// The chord history after remembering `chord`: appended, dropping the oldest
/// once more than eight are held.
pub open spec fn remembered(recent: Seq<Chord>, chord: Chord) -> Seq<Chord> {
    if recent.len() + 1 > HISTORY_LEN {
        recent.push(chord).drop_first()
    } else {
        recent.push(chord)
    }
}

impl GenerationContext {
    /// A context at beat 0, position 1 of the measure, with no history and no key.
    pub fn new(time_signature: TimeSignature) -> (r: Self)
        ensures
            r.current_beat == 0,
            r.measure_position == 1,
            r.recent_chords@ == Seq::<Chord>::empty(),
            r.time_signature == time_signature,
            r.current_key is None,
    {
        Self {
            current_beat: 0,
            measure_position: 1,
            recent_chords: Vec::new(),
            time_signature,
            current_key: None,
        }
    }

    /// Move to the next beat and recompute its position in the measure: beat
    /// `b` sits at position `b % beats_per_measure + 1`, so beat 0 is the
    /// first beat of a measure.
    pub fn advance_beat(&mut self)
        requires
            old(self).current_beat < u32::MAX,
            old(self).time_signature.beats_per_measure > 0,
        ensures
            final(self).current_beat == old(self).current_beat + 1,
            final(self).measure_position == (final(self).current_beat as int) % (old(
                self,
            ).time_signature.beats_per_measure as int) + 1,
            1 <= final(self).measure_position <= old(self).time_signature.beats_per_measure,
            final(self).recent_chords@ == old(self).recent_chords@,
            final(self).time_signature == old(self).time_signature,
            final(self).current_key == old(self).current_key,
    {
        self.current_beat = self.current_beat + 1;
        let bpm = self.time_signature.beats_per_measure as u32;
        self.measure_position = ((self.current_beat % bpm) + 1) as u8;
    }

    /// Remember a chord, keeping only the last eight.
    pub fn add_chord(&mut self, chord: Chord)
        ensures
            final(self).recent_chords@ == remembered(old(self).recent_chords@, chord),
            final(self).current_beat == old(self).current_beat,
            final(self).measure_position == old(self).measure_position,
            final(self).time_signature == old(self).time_signature,
            final(self).current_key == old(self).current_key,
    {
        self.recent_chords.push(chord);
        if self.recent_chords.len() > HISTORY_LEN {
            self.recent_chords.remove(0);
        }
    }

    /// Whether the current beat is a strong beat: 1 or 3 in four-beat
    /// measures, 1 otherwise.
    pub fn is_strong_beat(&self) -> (r: bool)
        ensures
            r == if self.time_signature.beats_per_measure == 4 {
                self.measure_position == 1 || self.measure_position == 3
            } else {
                self.measure_position == 1
            },
    {
        match self.time_signature.beats_per_measure {
            4 => self.measure_position == 1 || self.measure_position == 3,
            _ => self.measure_position == 1,
        }
    }

    /// The most recent chord, if any.
    pub fn last_chord(&self) -> (r: Option<&Chord>)
        ensures
            self.recent_chords@.len() == 0 ==> r is None,
            self.recent_chords@.len() > 0 ==> r == Some(&self.recent_chords@.last()),
    {
        self.recent_chords.last()
    }

    /// Whether `chord` is among the last `lookback` chords.
    pub fn was_used_recently(&self, chord: &Chord, lookback: usize) -> (r: bool)
        ensures
            r == used_recently(self.recent_chords@, *chord, lookback as int),
    {
        let len = self.recent_chords.len();
        let start: usize = if len > lookback {
            len - lookback
        } else {
            0
        };
        let mut i: usize = start;
        while i < len
            invariant
                start <= i <= len,
                len == self.recent_chords@.len(),
                start == (if len > lookback { len - lookback } else { 0 }),
                forall|k: int| start <= k < i ==> self.recent_chords@[k] != *chord,
            decreases len - i,
        {
            if self.recent_chords[i] == *chord {
                return true;
            }
            i = i + 1;
        }
        false
    }
}

/// Remembering chords one at a time never holds more than eight, and the
/// newest chord is always the last one held.
pub proof fn law_history_bounded(recent: Seq<Chord>, chord: Chord)
    requires
        recent.len() <= HISTORY_LEN,
    ensures
        remembered(recent, chord).len() <= HISTORY_LEN,
        remembered(recent, chord).last() == chord,
        used_recently(remembered(recent, chord), chord, 1),
{
    let r = remembered(recent, chord);
    assert(r[r.len() - 1] == chord);
}

/// One row of transition counts: where transitions start (no chord yet, or a
/// chord) in which key, and how often each chord followed.
pub type TransitionRow = ((Option<Chord>, Note), Vec<(Chord, u32)>);

/// How often `to` follows in a row's targets (0 when it never did).
pub open spec fn target_count(targets: Seq<(Chord, u32)>, to: Chord) -> nat {
    if exists|j: int| 0 <= j < targets.len() && (#[trigger] targets[j]).0 == to {
        let j = choose|j: int| 0 <= j < targets.len() && (#[trigger] targets[j]).0 == to;
        targets[j].1 as nat
    } else {
        0
    }
}

/// Some row starts from `from` in `key`.
pub open spec fn has_row(rows: Seq<TransitionRow>, from: Option<Chord>, key: Note) -> bool {
    exists|i: int| 0 <= i < rows.len() && (#[trigger] rows[i]).0 == (from, key)
}

/// How often `to` followed `from` in `key`.
pub open spec fn transition_count(rows: Seq<TransitionRow>, from: Option<Chord>, key: Note, to: Chord) -> nat {
    if has_row(rows, from, key) {
        let i = choose|i: int| 0 <= i < rows.len() && (#[trigger] rows[i]).0 == (from, key);
        target_count(rows[i].1@, to)
    } else {
        0
    }
}

/// Rows start from distinct places, and no chord is listed twice in a row.
pub open spec fn rows_distinct(rows: Seq<TransitionRow>) -> bool {
    &&& forall|i: int, j: int|
        0 <= i < rows.len() && 0 <= j < rows.len() && i != j ==> (#[trigger] rows[i]).0 != (#[trigger] rows[j]).0
    &&& forall|i: int| 0 <= i < rows.len() ==> targets_distinct(#[trigger] rows[i].1@)
}

/// No chord is listed twice among the targets.
pub open spec fn targets_distinct(targets: Seq<(Chord, u32)>) -> bool {
    forall|a: int, b: int|
        0 <= a < targets.len() && 0 <= b < targets.len() && a != b ==> (#[trigger] targets[a]).0
            != (#[trigger] targets[b]).0
}

/// A count raised by one, staying at `u32::MAX` once there.
pub open spec fn bumped(n: nat) -> nat {
    if n < u32::MAX {
        n + 1
    } else {
        u32::MAX as nat
    }
}

proof fn lemma_target_update(targets: Seq<(Chord, u32)>, j: int, n: u32, to: Chord)
    requires
        targets_distinct(targets),
        0 <= j < targets.len(),
    ensures
        targets_distinct(targets.update(j, (targets[j].0, n))),
        target_count(targets.update(j, (targets[j].0, n)), to) == if to == targets[j].0 {
            n as nat
        } else {
            target_count(targets, to)
        },
{
    let c = targets[j].0;
    let new = targets.update(j, (c, n));
    assert forall|a: int, b: int|
        0 <= a < new.len() && 0 <= b < new.len() && a != b implies (#[trigger] new[a]).0 != (
        #[trigger] new[b]).0 by {
        assert(new[a].0 == targets[a].0);
        assert(new[b].0 == targets[b].0);
    }
    if to == c {
        assert(new[j].0 == to);
        let k = choose|k: int| 0 <= k < new.len() && (#[trigger] new[k]).0 == to;
        if k != j {
            assert(new[k].0 != new[j].0);
        }
    } else {
        if exists|k: int| 0 <= k < new.len() && (#[trigger] new[k]).0 == to {
            let k = choose|k: int| 0 <= k < new.len() && (#[trigger] new[k]).0 == to;
            assert(k != j);
            assert(targets[k].0 == to);
            let k0 = choose|k0: int| 0 <= k0 < targets.len() && (#[trigger] targets[k0]).0 == to;
            if k0 != k {
                assert(targets[k0].0 != targets[k].0);
            }
        }
        if exists|k: int| 0 <= k < targets.len() && (#[trigger] targets[k]).0 == to {
            let k = choose|k: int| 0 <= k < targets.len() && (#[trigger] targets[k]).0 == to;
            assert(new[k].0 == to);
        }
    }
}

proof fn lemma_target_push(targets: Seq<(Chord, u32)>, c: Chord, to: Chord)
    requires
        targets_distinct(targets),
        forall|j: int| 0 <= j < targets.len() ==> (#[trigger] targets[j]).0 != c,
    ensures
        targets_distinct(targets.push((c, 1u32))),
        target_count(targets.push((c, 1u32)), to) == if to == c {
            1nat
        } else {
            target_count(targets, to)
        },
{
    let new = targets.push((c, 1u32));
    let last = targets.len() as int;
    assert forall|a: int, b: int|
        0 <= a < new.len() && 0 <= b < new.len() && a != b implies (#[trigger] new[a]).0 != (
        #[trigger] new[b]).0 by {
        if a < last && b < last {
            assert(new[a] == targets[a] && new[b] == targets[b]);
        } else if a < last {
            assert(new[a] == targets[a]);
        } else if b < last {
            assert(new[b] == targets[b]);
        }
    }
    if to == c {
        assert(new[last].0 == to);
        let k = choose|k: int| 0 <= k < new.len() && (#[trigger] new[k]).0 == to;
        if k != last {
            assert(new[k] == targets[k]);
        }
    } else {
        if exists|k: int| 0 <= k < new.len() && (#[trigger] new[k]).0 == to {
            let k = choose|k: int| 0 <= k < new.len() && (#[trigger] new[k]).0 == to;
            assert(k != last);
            assert(new[k] == targets[k]);
            let k0 = choose|k0: int| 0 <= k0 < targets.len() && (#[trigger] targets[k0]).0 == to;
            if k0 != k {
                assert(targets[k0].0 != targets[k].0);
            }
        }
        if exists|k: int| 0 <= k < targets.len() && (#[trigger] targets[k]).0 == to {
            let k = choose|k: int| 0 <= k < targets.len() && (#[trigger] targets[k]).0 == to;
            assert(new[k] == targets[k]);
        }
    }
}

proof fn lemma_row_update(rows: Seq<TransitionRow>, i: int, targets: Vec<(Chord, u32)>, from: Option<Chord>, key: Note, to: Chord)
    requires
        rows_distinct(rows),
        0 <= i < rows.len(),
        targets_distinct(targets@),
    ensures
        rows_distinct(rows.update(i, (rows[i].0, targets))),
        transition_count(rows.update(i, (rows[i].0, targets)), from, key, to) == if (from, key) == rows[i].0 {
            target_count(targets@, to)
        } else {
            transition_count(rows, from, key, to)
        },
{
    let k0 = rows[i].0;
    let new = rows.update(i, (k0, targets));
    assert forall|a: int, b: int|
        0 <= a < new.len() && 0 <= b < new.len() && a != b implies (#[trigger] new[a]).0 != (
        #[trigger] new[b]).0 by {
        assert(new[a].0 == rows[a].0);
        assert(new[b].0 == rows[b].0);
    }
    assert forall|a: int| 0 <= a < new.len() implies targets_distinct(#[trigger] new[a].1@) by {
        if a != i {
            assert(new[a] == rows[a]);
        }
    }
    if (from, key) == k0 {
        assert(new[i].0 == (from, key));
        let k = choose|k: int| 0 <= k < new.len() && (#[trigger] new[k]).0 == (from, key);
        if k != i {
            assert(new[k].0 != new[i].0);
        }
    } else {
        if has_row(new, from, key) {
            let k = choose|k: int| 0 <= k < new.len() && (#[trigger] new[k]).0 == (from, key);
            assert(k != i);
            assert(new[k] == rows[k]);
            let k1 = choose|k1: int| 0 <= k1 < rows.len() && (#[trigger] rows[k1]).0 == (from, key);
            if k1 != k {
                assert(rows[k1].0 != rows[k].0);
            }
        }
        if has_row(rows, from, key) {
            let k = choose|k: int| 0 <= k < rows.len() && (#[trigger] rows[k]).0 == (from, key);
            assert(new[k].0 == (from, key));
        }
    }
}

proof fn lemma_row_push(rows: Seq<TransitionRow>, row_key: (Option<Chord>, Note), targets: Vec<(Chord, u32)>, from: Option<Chord>, key: Note, to: Chord)
    requires
        rows_distinct(rows),
        !has_row(rows, row_key.0, row_key.1),
        targets_distinct(targets@),
    ensures
        rows_distinct(rows.push((row_key, targets))),
        transition_count(rows.push((row_key, targets)), from, key, to) == if (from, key) == row_key {
            target_count(targets@, to)
        } else {
            transition_count(rows, from, key, to)
        },
{
    let new = rows.push((row_key, targets));
    let last = rows.len() as int;
    assert forall|a: int, b: int|
        0 <= a < new.len() && 0 <= b < new.len() && a != b implies (#[trigger] new[a]).0 != (
        #[trigger] new[b]).0 by {
        if a < last && b < last {
            assert(new[a] == rows[a] && new[b] == rows[b]);
        } else if a < last {
            assert(new[a] == rows[a]);
            assert(rows[a].0 != row_key);
        } else if b < last {
            assert(new[b] == rows[b]);
            assert(rows[b].0 != row_key);
        }
    }
    assert forall|a: int| 0 <= a < new.len() implies targets_distinct(#[trigger] new[a].1@) by {
        if a < last {
            assert(new[a] == rows[a]);
        }
    }
    if (from, key) == row_key {
        assert(new[last].0 == (from, key));
        let k = choose|k: int| 0 <= k < new.len() && (#[trigger] new[k]).0 == (from, key);
        if k != last {
            assert(new[k] == rows[k]);
        }
    } else {
        if has_row(new, from, key) {
            let k = choose|k: int| 0 <= k < new.len() && (#[trigger] new[k]).0 == (from, key);
            assert(k != last);
            assert(new[k] == rows[k]);
            let k1 = choose|k1: int| 0 <= k1 < rows.len() && (#[trigger] rows[k1]).0 == (from, key);
            if k1 != k {
                assert(rows[k1].0 != rows[k].0);
            }
        }
        if has_row(rows, from, key) {
            let k = choose|k: int| 0 <= k < rows.len() && (#[trigger] rows[k]).0 == (from, key);
            assert(new[k] == rows[k]);
        }
    }
}

/// How often the transition `from` → `to` occurs in `progression`: its first
/// chord follows "no chord", and each later chord follows the one before.
pub open spec fn occurrences(progression: Seq<Chord>, from: Option<Chord>, to: Chord) -> nat
    decreases progression.len(),
{
    if progression.len() == 0 {
        0
    } else if progression.len() == 1 {
        if from is None && progression[0] == to {
            1
        } else {
            0
        }
    } else {
        let n = progression.len() as int;
        occurrences(progression.drop_last(), from, to) + if from == Some(progression[n - 2])
            && progression[n - 1] == to {
            1nat
        } else {
            0nat
        }
    }
}

/// `n + m`, staying at `u32::MAX` once there.
pub open spec fn saturating_sum(n: nat, m: nat) -> nat {
    if n + m < u32::MAX {
        n + m
    } else {
        u32::MAX as nat
    }
}

/// The transitions of every common progression in `key`, counted.
pub open spec fn common_count(key: Note, from: Option<Chord>, to: Chord) -> nat {
    let ps = common_progressions(key);
    occurrences(ps[0], from, to) + occurrences(ps[1], from, to) + occurrences(ps[2], from, to)
        + occurrences(ps[3], from, to)
}

proof fn lemma_occurrences_bound(progression: Seq<Chord>, from: Option<Chord>, to: Chord)
    ensures
        occurrences(progression, from, to) <= progression.len(),
    decreases progression.len(),
{
    if progression.len() > 1 {
        lemma_occurrences_bound(progression.drop_last(), from, to);
    }
}

proof fn lemma_occurrences_step(progression: Seq<Chord>, i: int, from: Option<Chord>, to: Chord)
    requires
        1 <= i < progression.len(),
    ensures
        occurrences(progression.take(i + 1), from, to) == occurrences(progression.take(i), from, to)
            + if from == Some(progression[i - 1]) && progression[i] == to {
            1nat
        } else {
            0nat
        },
{
    assert(progression.take(i + 1).drop_last() =~= progression.take(i));
}


/// The transitions of the first `j` common progressions in `key`, counted.
pub open spec fn partial_count(key: Note, j: int, from: Option<Chord>, to: Chord) -> nat
    decreases j,
{
    if j <= 0 {
        0
    } else {
        partial_count(key, j - 1, from, to) + occurrences(common_progressions(key)[j - 1], from, to)
    }
}

proof fn lemma_partial_count_bound(key: Note, j: int, from: Option<Chord>, to: Chord)
    requires
        0 <= j <= 4,
    ensures
        partial_count(key, j, from, to) <= 4 * j,
    decreases j,
{
    if j > 0 {
        lemma_partial_count_bound(key, j - 1, from, to);
        lemma_occurrences_bound(common_progressions(key)[j - 1], from, to);
    }
}

proof fn lemma_count_bound(rows: Seq<TransitionRow>, from: Option<Chord>, key: Note, to: Chord)
    ensures
        transition_count(rows, from, key, to) <= u32::MAX,
{
}


/// Whether two optional chords are the same.
fn same_start(a: Option<Chord>, b: Option<Chord>) -> (r: bool)
    ensures
        r == (a == b),
{
    match (a, b) {
        (None, None) => true,
        (Some(x), Some(y)) => x == y,
        _ => false,
    }
}

/// Markov-chain transition counts: how often each chord followed a chord (or
/// opened a progression) in each key.
pub struct TransitionCounts {
    rows: Vec<TransitionRow>,
}

impl TransitionCounts {
    /// How often `to` followed `from` in `key`.
    pub closed spec fn count_view(self, from: Option<Chord>, key: Note, to: Chord) -> nat {
        transition_count(self.rows@, from, key, to)
    }

    /// Rows and targets are each listed once.
    pub closed spec fn wf(self) -> bool {
        rows_distinct(self.rows@)
    }

    /// No transitions counted yet.
    pub fn new() -> (r: Self)
        ensures
            r.wf(),
            forall|from: Option<Chord>, key: Note, to: Chord| #[trigger] r.count_view(from, key, to) == 0,
    {
        TransitionCounts { rows: Vec::new() }
    }

    /// How often `to` followed `from` in `key`.
    pub fn count(&self, from: Option<Chord>, key: Note, to: &Chord) -> (r: u32)
        requires
            self.wf(),
        ensures
            r == self.count_view(from, key, *to),
    {
        let mut i: usize = 0;
        while i < self.rows.len()
            invariant
                rows_distinct(self.rows@),
                i <= self.rows@.len(),
                forall|k: int| 0 <= k < i ==> (#[trigger] self.rows@[k]).0 != (from, key),
            decreases self.rows.len() - i,
        {
            let row = &self.rows[i];
            if same_start(row.0.0, from) && row.0.1 == key {
                proof {
                    assert(self.rows@[i as int].0 == (from, key));
                    let c = choose|c: int| 0 <= c < self.rows@.len() && (#[trigger] self.rows@[c]).0 == (from, key);
                    if c != i as int {
                        assert(self.rows@[c].0 != self.rows@[i as int].0);
                    }
                    assert(transition_count(self.rows@, from, key, *to) == target_count(self.rows@[i as int].1@, *to));
                }
                let targets = &row.1;
                let mut j: usize = 0;
                while j < targets.len()
                    invariant
                        targets_distinct(targets@),
                        transition_count(self.rows@, from, key, *to) == target_count(targets@, *to),
                        j <= targets@.len(),
                        forall|k: int| 0 <= k < j ==> (#[trigger] targets@[k]).0 != *to,
                    decreases targets.len() - j,
                {
                    if targets[j].0 == *to {
                        proof {
                            assert(targets@[j as int].0 == *to);
                            let c = choose|c: int| 0 <= c < targets@.len() && (#[trigger] targets@[c]).0 == *to;
                            if c != j as int {
                                assert(targets@[c].0 != targets@[j as int].0);
                            }
                        }
                        return targets[j].1;
                    }
                    j = j + 1;
                }
                return 0;
            }
            i = i + 1;
        }
        0
    }

    /// Learn a progression in `key`: count its opening chord after "no chord"
    /// and each chord after the one before it.
    pub fn train_on_progression(&mut self, progression: &[Chord], key: Note)
        requires
            old(self).wf(),
        ensures
            final(self).wf(),
            forall|f: Option<Chord>, k: Note, t: Chord|
                #[trigger] final(self).count_view(f, k, t) == if k == key {
                    saturating_sum(old(self).count_view(f, k, t), occurrences(progression@, f, t))
                } else {
                    old(self).count_view(f, k, t)
                },
    {
        if progression.len() == 0 {
            assert forall|f: Option<Chord>, k: Note, t: Chord|
                #[trigger] self.count_view(f, k, t) == if k == key {
                    saturating_sum(old(self).count_view(f, k, t), occurrences(progression@, f, t))
                } else {
                    old(self).count_view(f, k, t)
                } by {
                lemma_count_bound(old(self).rows@, f, k, t);
            }
            return;
        }
        let ghost start = *self;
        self.add_transition(None, &progression[0], key);
        proof {
            assert forall|f: Option<Chord>, k: Note, t: Chord|
                #[trigger] self.count_view(f, k, t) == if k == key {
                    saturating_sum(start.count_view(f, k, t), occurrences(progression@.take(1), f, t))
                } else {
                    start.count_view(f, k, t)
                } by {
                lemma_count_bound(start.rows@, f, k, t);
            }
        }
        let mut i: usize = 1;
        while i < progression.len()
            invariant
                self.wf(),
                1 <= i <= progression@.len(),
                forall|f: Option<Chord>, k: Note, t: Chord|
                    #[trigger] self.count_view(f, k, t) == if k == key {
                        saturating_sum(start.count_view(f, k, t), occurrences(progression@.take(i as int), f, t))
                    } else {
                        start.count_view(f, k, t)
                    },
            decreases progression.len() - i,
        {
            let ghost before = *self;
            self.add_transition(Some(progression[i - 1]), &progression[i], key);
            proof {
                assert forall|f: Option<Chord>, k: Note, t: Chord|
                    #[trigger] self.count_view(f, k, t) == if k == key {
                        saturating_sum(start.count_view(f, k, t), occurrences(progression@.take(i + 1), f, t))
                    } else {
                        start.count_view(f, k, t)
                    } by {
                    lemma_occurrences_step(progression@, i as int, f, t);
                    lemma_count_bound(start.rows@, f, k, t);
                    assert(before.count_view(f, k, t) == if k == key {
                        saturating_sum(start.count_view(f, k, t), occurrences(progression@.take(i as int), f, t))
                    } else {
                        start.count_view(f, k, t)
                    });
                }
            }
            i = i + 1;
        }
        assert(progression@.take(progression@.len() as int) =~= progression@);
    }

    /// Counts learned from the common progressions of every key.
    pub fn from_common_progressions(theory: &StandardMusicTheory) -> (r: Self)
        ensures
            r.wf(),
            forall|f: Option<Chord>, k: Note, t: Chord| #[trigger] r.count_view(f, k, t) == common_count(k, f, t),
    {
        let mut counts = TransitionCounts::new();
        let keys = Note::all();
        let mut i: usize = 0;
        while i < 12
            invariant
                counts.wf(),
                i <= 12,
                forall|m: int| 0 <= m < 12 ==> (#[trigger] keys@[m]).semitone() == m,
                forall|f: Option<Chord>, k: Note, t: Chord|
                    #[trigger] counts.count_view(f, k, t) == if k.semitone() < i {
                        common_count(k, f, t)
                    } else {
                        0
                    },
            decreases 12 - i,
        {
            let key = keys[i];
            let progressions = theory.get_common_progressions(key);
            let ghost before = counts;
            let mut j: usize = 0;
            while j < 4
                invariant
                    counts.wf(),
                    i < 12,
                    key.semitone() == i,
                    j <= 4,
                    progressions@.len() == 4,
                    forall|p: int| 0 <= p < 4 ==> (#[trigger] progressions@[p])@ == common_progressions(key)[p],
                    forall|f: Option<Chord>, k: Note, t: Chord|
                        #[trigger] before.count_view(f, k, t) == if k.semitone() < i {
                            common_count(k, f, t)
                        } else {
                            0
                        },
                    forall|f: Option<Chord>, k: Note, t: Chord|
                        #[trigger] counts.count_view(f, k, t) == if k == key {
                            partial_count(key, j as int, f, t)
                        } else {
                            before.count_view(f, k, t)
                        },
                decreases 4 - j,
            {
                let ghost mid = counts;
                let progression = progressions[j].as_slice();
                assert(progression@ == common_progressions(key)[j as int]);
                counts.train_on_progression(progression, key);
                proof {
                    assert(common_progressions(key)[j as int].len() <= 4) by {
                        if j == 0 {
                        } else if j == 1 {
                        } else if j == 2 {
                        } else {
                        }
                    }
                    assert forall|f: Option<Chord>, k: Note, t: Chord|
                        #[trigger] counts.count_view(f, k, t) == if k == key {
                            partial_count(key, j + 1, f, t)
                        } else {
                            before.count_view(f, k, t)
                        } by {
                        if k == key {
                            lemma_partial_count_bound(key, j as int, f, t);
                            lemma_occurrences_bound(common_progressions(key)[j as int], f, t);
                            assert(mid.count_view(f, k, t) == partial_count(key, j as int, f, t));
                        }
                    }
                }
                j = j + 1;
            }
            proof {
                assert forall|f: Option<Chord>, k: Note, t: Chord|
                    #[trigger] counts.count_view(f, k, t) == if k.semitone() < i + 1 {
                        common_count(k, f, t)
                    } else {
                        0
                    } by {
                    if k == key {
                        assert(partial_count(key, 4, f, t) == common_count(k, f, t)) by {
                            reveal_with_fuel(partial_count, 5);
                        }
                    } else {
                        assert(k.semitone() != i);
                    }
                }
            }
            i = i + 1;
        }
        counts
    }

    /// Count one more time `to` followed `from` in `key` (staying at
    /// `u32::MAX` once there).
    pub fn add_transition(&mut self, from: Option<Chord>, to: &Chord, key: Note)
        requires
            old(self).wf(),
        ensures
            final(self).wf(),
            forall|f: Option<Chord>, k: Note, t: Chord|
                #[trigger] final(self).count_view(f, k, t) == if f == from && k == key && t == *to {
                    bumped(old(self).count_view(f, k, t))
                } else {
                    old(self).count_view(f, k, t)
                },
    {
        let ghost old_rows = self.rows@;
        let mut i: usize = 0;
        while i < self.rows.len()
            invariant
                self.rows@ == old_rows,
                old(self).rows@ == old_rows,
                rows_distinct(old_rows),
                i <= old_rows.len(),
                forall|k: int| 0 <= k < i ==> (#[trigger] old_rows[k]).0 != (from, key),
            decreases self.rows.len() - i,
        {
            if same_start(self.rows[i].0.0, from) && self.rows[i].0.1 == key {
                assert(old_rows[i as int].0 == (from, key));
                let (row_key, mut targets) = self.rows.remove(i);
                let ghost old_targets = targets@;
                assert(targets_distinct(old_targets));
                let mut j: usize = 0;
                let mut found = false;
                while j < targets.len() && !found
                    invariant
                        targets@ == old_targets,
                        j <= targets@.len(),
                        found ==> j < targets@.len() && old_targets[j as int].0 == *to,
                        forall|k: int| 0 <= k < j ==> (#[trigger] old_targets[k]).0 != *to,
                    decreases targets.len() - j + if found { 0int } else { 1int },
                {
                    if targets[j].0 == *to {
                        found = true;
                    } else {
                        j = j + 1;
                    }
                }
                if found {
                    let (chord, n) = targets.remove(j);
                    targets.insert(j, (chord, n.saturating_add(1)));
                    proof {
                        assert(targets@ =~= old_targets.update(j as int, (old_targets[j as int].0, n.saturating_add(1))));
                        assert forall|t: Chord| target_count(targets@, t) == if t == *to {
                            bumped(target_count(old_targets, t))
                        } else {
                            target_count(old_targets, t)
                        } by {
                            lemma_target_update(old_targets, j as int, n.saturating_add(1), t);
                            let c = choose|c: int| 0 <= c < old_targets.len() && (#[trigger] old_targets[c]).0 == *to;
                            if c != j as int {
                                assert(old_targets[c].0 != old_targets[j as int].0);
                            }
                        }
                        lemma_target_update(old_targets, j as int, n.saturating_add(1), *to);
                    }
                } else {
                    targets.push((*to, 1u32));
                    proof {
                        assert forall|t: Chord| target_count(targets@, t) == if t == *to {
                            bumped(target_count(old_targets, t))
                        } else {
                            target_count(old_targets, t)
                        } by {
                            lemma_target_push(old_targets, *to, t);
                        }
                        lemma_target_push(old_targets, *to, *to);
                    }
                }
                let ghost new_targets = targets@;
                self.rows.insert(i, (row_key, targets));
                proof {
                    assert(self.rows@ =~= old_rows.update(i as int, (old_rows[i as int].0, self.rows@[i as int].1)));
                    assert forall|f: Option<Chord>, k: Note, t: Chord|
                        #[trigger] transition_count(self.rows@, f, k, t) == if f == from && k == key && t == *to {
                            bumped(transition_count(old_rows, f, k, t))
                        } else {
                            transition_count(old_rows, f, k, t)
                        } by {
                        lemma_row_update(old_rows, i as int, self.rows@[i as int].1, f, k, t);
                        lemma_row_update(old_rows, i as int, self.rows@[i as int].1, from, key, t);
                        let c = choose|c: int| 0 <= c < old_rows.len() && (#[trigger] old_rows[c]).0 == (from, key);
                        if c != i as int {
                            assert(old_rows[c].0 != old_rows[i as int].0);
                        }
                    }
                    lemma_row_update(old_rows, i as int, self.rows@[i as int].1, from, key, *to);
                }
                return;
            }
            i = i + 1;
        }
        let mut targets: Vec<(Chord, u32)> = Vec::new();
        targets.push((*to, 1u32));
        proof {
            assert forall|t: Chord| target_count(targets@, t) == if t == *to { 1nat } else { 0nat } by {
                lemma_target_push(Seq::<(Chord, u32)>::empty(), *to, t);
                assert(Seq::<(Chord, u32)>::empty().push((*to, 1u32)) =~= targets@);
            }
            lemma_target_push(Seq::<(Chord, u32)>::empty(), *to, *to);
            assert(Seq::<(Chord, u32)>::empty().push((*to, 1u32)) =~= targets@);
        }
        self.rows.push(((from, key), targets));
        proof {
            assert(self.rows@ =~= old_rows.push(((from, key), targets)));
            assert forall|f: Option<Chord>, k: Note, t: Chord|
                #[trigger] transition_count(self.rows@, f, k, t) == if f == from && k == key && t == *to {
                    bumped(transition_count(old_rows, f, k, t))
                } else {
                    transition_count(old_rows, f, k, t)
                } by {
                lemma_row_push(old_rows, (from, key), targets, f, k, t);
            }
            lemma_row_push(old_rows, (from, key), targets, from, key, *to);
        }
    }
}

/// Default randomizer; its state is a 32-bit linear congruential generator
/// advanced by `lcg_step`.
pub struct SystemRandomizer;

/// One step of the generator: `seed * 1103515245 + 12345` modulo 2^32.
pub open spec fn lcg_next(seed: u32) -> u32 {
    ((seed * 1103515245 + 12345) % 0x1_0000_0000) as u32
}

/// Advance the generator's state by one step.
pub fn lcg_step(seed: u32) -> (r: u32)
    ensures
        r == lcg_next(seed),
{
    let product = seed.wrapping_mul(1103515245);
    let r = product.wrapping_add(12345);
    assert(r == lcg_next(seed)) by (nonlinear_arith)
        requires
            product == (seed * 1103515245) % 0x1_0000_0000,
            r == (product + 12345) % 0x1_0000_0000,
    ;
    r
}

/// The 16 high bits of the state, the generator's output (to be scaled into [0, 1)).
pub fn lcg_output(seed: u32) -> (r: u16)
    ensures
        r == seed / 0x1_0000,
{
    let high = seed >> 16;
    assert(high == seed / 0x1_0000) by (bit_vector)
        requires
            high == seed >> 16,
    ;
    assert(high < 0x1_0000) by (bit_vector)
        requires
            high == seed >> 16,
    ;
    high as u16
}

} // verus!
