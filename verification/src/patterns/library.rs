//! Pattern library: drum patterns stored by name, indexed by genre and by
//! difficulty, searchable by text and filterable by tempo.
//!
//! The library holds each pattern together with a `PatternInfo` of what it
//! reads of the pattern: names, tempo range and metadata. The pattern itself
//! is carried through unchanged.

use vstd::prelude::*;
use super::types::{PatternGenre, PatternMetadata};

verus! {

/// What the pattern library reads of a drum pattern.
#[derive(Debug)]
pub struct PatternInfo {
    /// Pattern name for identification
    pub name: String,
    /// Display name for user interfaces
    pub display_name: String,
    /// Recommended tempo range (min_bpm, max_bpm)
    pub tempo_range: (u32, u32),
    /// Pattern metadata
    pub metadata: PatternMetadata,
}

impl PatternInfo {
    /// Whether the pattern suits `tempo_bpm`: within the recommended range, bounds included.
    pub open spec fn suits_tempo(self, tempo_bpm: int) -> bool {
        self.tempo_range.0 <= tempo_bpm <= self.tempo_range.1
    }
}

/// Some entry of `entries` is named `name`.
pub open spec fn has_name<P>(entries: Seq<(PatternInfo, P)>, name: Seq<char>) -> bool {
    exists|i: int| 0 <= i < entries.len() && (#[trigger] entries[i]).0.name@ == name
}

/// The position of the entry named `name` (meaningful when there is one).
pub open spec fn position_of<P>(entries: Seq<(PatternInfo, P)>, name: Seq<char>) -> int {
    choose|i: int| 0 <= i < entries.len() && (#[trigger] entries[i]).0.name@ == name
}

/// No two entries share a name.
pub open spec fn names_distinct<P>(entries: Seq<(PatternInfo, P)>) -> bool {
    forall|i: int, j: int|
        0 <= i < entries.len() && 0 <= j < entries.len() && i != j ==> (#[trigger] entries[i]).0.name@
            != (#[trigger] entries[j]).0.name@
}

/// The names listed under `key` in an index (none when the key has no list).
pub open spec fn index_names<K>(index: Seq<(K, Vec<String>)>, key: K) -> Seq<Seq<char>> {
    if exists|i: int| 0 <= i < index.len() && (#[trigger] index[i]).0 == key {
        let i = choose|i: int| 0 <= i < index.len() && (#[trigger] index[i]).0 == key;
        index[i].1@.map_values(|s: String| s@)
    } else {
        Seq::empty()
    }
}

/// An index lists each key at most once.
pub open spec fn keys_distinct<K>(index: Seq<(K, Vec<String>)>) -> bool {
    forall|i: int, j: int|
        0 <= i < index.len() && 0 <= j < index.len() && i != j ==> (#[trigger] index[i]).0
            != (#[trigger] index[j]).0
}

/// Every name an index lists belongs to some entry.
pub open spec fn index_names_stored<K, P>(
    index: Seq<(K, Vec<String>)>,
    entries: Seq<(PatternInfo, P)>,
) -> bool {
    forall|i: int, j: int|
        0 <= i < index.len() && 0 <= j < index[i].1@.len() ==> has_name(
            entries,
            (#[trigger] index[i].1@[j])@,
        )
}

/// The patterns of the entries whose info satisfies `pred`, in order.
pub open spec fn select<P>(entries: Seq<(PatternInfo, P)>, pred: spec_fn(PatternInfo) -> bool) -> Seq<P>
    decreases entries.len(),
{
    if entries.len() == 0 {
        Seq::empty()
    } else {
        let rest = select(entries.drop_last(), pred);
        if pred(entries.last().0) {
            rest.push(entries.last().1)
        } else {
            rest
        }
    }
}

/// The entries after storing `pattern` under `info.name`: in place of a
/// pattern of that name, or appended.
pub open spec fn with_pattern<P>(entries: Seq<(PatternInfo, P)>, info: PatternInfo, pattern: P) -> Seq<
    (PatternInfo, P),
> {
    if has_name(entries, info.name@) {
        entries.update(position_of(entries, info.name@), (info, pattern))
    } else {
        entries.push((info, pattern))
    }
}

/// The pattern stored under `name`.
pub open spec fn lookup<P>(entries: Seq<(PatternInfo, P)>, name: Seq<char>) -> P {
    entries[position_of(entries, name)].1
}

/// `needle` occurs as a contiguous part of `haystack`.
pub open spec fn occurs_in(needle: Seq<char>, haystack: Seq<char>) -> bool {
    exists|i: int|
        0 <= i && i + needle.len() <= haystack.len() && #[trigger] haystack.subrange(
            i,
            i + needle.len(),
        ) == needle
}

/// What `str::to_lowercase` returns for a text: its lowercase mapping as
/// Unicode defines it (context-dependent for a final capital sigma), a
/// function of the text alone.
pub uninterp spec fn lowercase(s: Seq<char>) -> Seq<char>;

/// A pattern matches a lowercased query when the query occurs in the lowercased
/// name, display name, description or one of the tags.
pub open spec fn matches_query(info: PatternInfo, query_lower: Seq<char>) -> bool {
    ||| occurs_in(query_lower, lowercase(info.name@))
    ||| occurs_in(query_lower, lowercase(info.display_name@))
    ||| occurs_in(query_lower, lowercase(info.metadata.description@))
    ||| exists|t: int|
        0 <= t < info.metadata.tags@.len() && occurs_in(
            query_lower,
            lowercase((#[trigger] info.metadata.tags@[t])@),
        )
}

/// `str::to_lowercase`: the lowercase form of a text, a function of the text alone.
#[verifier::external_body]
pub(crate) fn to_lowercase(s: &str) -> (r: String)
    ensures
        r@ == lowercase(s@),
{
    s.to_lowercase()
}

/// The characters of a text.
pub(crate) fn chars_of(s: &str) -> (r: Vec<char>)
    ensures
        r@ == s@,
{
    let mut out: Vec<char> = Vec::new();
    for c in it: s.chars()
        invariant
            it.seq() == s@,
            out@ == s@.take(it.index() as int),
    {
        out.push(c);
        assert(out@ =~= s@.take(it.index() as int + 1));
    }
    assert(s@.take(s@.len() as int) =~= s@);
    out
}

/// Whether `needle` occurs in `haystack`.
pub(crate) fn occurs(needle: &Vec<char>, haystack: &Vec<char>) -> (r: bool)
    ensures
        r == occurs_in(needle@, haystack@),
{
    let n = needle.len();
    if n == 0 {
        assert(haystack@.subrange(0, 0 + needle@.len() as int) =~= needle@);
        return true;
    }
    if n > haystack.len() {
        return false;
    }
    let last = haystack.len() - n;
    let mut i: usize = 0;
    while i <= last
        invariant
            n == needle@.len(),
            n >= 1,
            last + n == haystack@.len(),
            haystack@.len() == haystack.len(),
            i <= last + 1,
            forall|k: int| 0 <= k < i ==> #[trigger] haystack@.subrange(k, k + n) != needle@,
        decreases last + 1 - i,
    {
        let mut j: usize = 0;
        let mut same = true;
        while j < n
            invariant
                i <= last,
                n == needle@.len(),
                last + n == haystack@.len(),
                haystack@.len() == haystack.len(),
                j <= n,
                same == forall|m: int| 0 <= m < j ==> haystack@[i + m] == needle@[m],
            decreases n - j,
        {
            if haystack[i + j] != needle[j] {
                same = false;
            }
            j = j + 1;
        }
        if same {
            assert(haystack@.subrange(i as int, i + n) =~= needle@);
            return true;
        }
        assert(haystack@.subrange(i as int, i + n) != needle@) by {
            let m = choose|m: int| 0 <= m < n && haystack@[i + m] != needle@[m];
            assert(haystack@.subrange(i as int, i + n)[m] == haystack@[i + m]);
        }
        i = i + 1;
    }
    assert forall|k: int|
        0 <= k && k + needle@.len() <= haystack@.len() implies #[trigger] haystack@.subrange(
        k,
        k + needle@.len(),
    ) != needle@ by {
        assert(k <= last);
    }
    false
}

/// Whether the lowercased query `needle` occurs in the lowercased name,
/// display name, description or one of the tags of `info`.
fn info_matches(info: &PatternInfo, needle: &Vec<char>) -> (r: bool)
    ensures
        r == matches_query(*info, needle@),
{
    if occurs(needle, &chars_of(to_lowercase(info.name.as_str()).as_str())) {
        return true;
    }
    if occurs(needle, &chars_of(to_lowercase(info.display_name.as_str()).as_str())) {
        return true;
    }
    if occurs(needle, &chars_of(to_lowercase(info.metadata.description.as_str()).as_str())) {
        return true;
    }
    let tags = &info.metadata.tags;
    let mut t: usize = 0;
    while t < tags.len()
        invariant
            tags@ == info.metadata.tags@,
            t <= tags@.len(),
            !occurs_in(needle@, lowercase(info.name@)),
            !occurs_in(needle@, lowercase(info.display_name@)),
            !occurs_in(needle@, lowercase(info.metadata.description@)),
            forall|k: int| 0 <= k < t ==> !occurs_in(needle@, lowercase((#[trigger] tags@[k])@)),
        decreases tags.len() - t,
    {
        if occurs(needle, &chars_of(to_lowercase(tags[t].as_str()).as_str())) {
            assert(0 <= t < info.metadata.tags@.len() && occurs_in(
                needle@,
                lowercase(info.metadata.tags@[t as int]@),
            ));
            return true;
        }
        t = t + 1;
    }
    false
}

/// Add `name` to the list under `key`, starting a list for a new key.
fn index_push_genre(index: &mut Vec<(PatternGenre, Vec<String>)>, key: PatternGenre, name: String)
    requires
        keys_distinct(old(index)@),
    ensures
        keys_distinct(final(index)@),
        forall|k: PatternGenre|
            #![trigger index_names(final(index)@, k)]
            index_names(final(index)@, k) == if k == key {
                index_names(old(index)@, k).push(name@)
            } else {
                index_names(old(index)@, k)
            },
        forall|i: int, j: int|
            0 <= i < final(index)@.len() && 0 <= j < final(index)@[i].1@.len() ==> (
            #[trigger] final(index)@[i].1@[j])@ == name@ || exists|i0: int, j0: int|
                0 <= i0 < old(index)@.len() && 0 <= j0 < old(index)@[i0].1@.len() && (
                #[trigger] old(index)@[i0].1@[j0])@ == final(index)@[i].1@[j]@,
{
    let ghost old_index = index@;
    let ghost gname: String = name;
    let mut i: usize = 0;
    while i < index.len()
        invariant
            index@ == old_index,
            old(index)@ == old_index,
            gname == name,
            keys_distinct(old_index),
            i <= index.len(),
            forall|k: int| 0 <= k < i ==> (#[trigger] index@[k]).0 != key,
        decreases index.len() - i,
    {
        if index[i].0 == key {
            let ghost old_names = index@[i as int].1@;
            let (k, mut names) = index.remove(i);
            names.push(name);
            index.insert(i, (k, names));
            proof {
                let new_index = index@;
                assert(new_index =~= old_index.update(i as int, (key, names)));
                assert(new_index[i as int].1@ == old_names.push(gname));
                assert forall|k: PatternGenre| #[trigger] index_names(new_index, k) == if k == key {
                    index_names(old_index, k).push(gname@)
                } else {
                    index_names(old_index, k)
                } by {
                    if k == key {
                        assert(new_index[i as int].0 == key);
                        assert(old_index[i as int].0 == key);
                        assert(new_index[i as int].1@.map_values(|s: String| s@) =~= old_names.map_values(
                            |s: String| s@,
                        ).push(gname@));
                    } else {
                        if exists|x: int| 0 <= x < new_index.len() && (#[trigger] new_index[x]).0 == k {
                            let x = choose|x: int| 0 <= x < new_index.len() && (#[trigger] new_index[x]).0 == k;
                            assert(x != i);
                            assert(old_index[x] == new_index[x]);
                        }
                        if exists|x: int| 0 <= x < old_index.len() && (#[trigger] old_index[x]).0 == k {
                            let x = choose|x: int| 0 <= x < old_index.len() && (#[trigger] old_index[x]).0 == k;
                            assert(new_index[x] == old_index[x]);
                        }
                    }
                }
                assert forall|a: int, b: int|
                    0 <= a < new_index.len() && 0 <= b < new_index[a].1@.len() implies (
                    #[trigger] new_index[a].1@[b])@ == gname@ || exists|i0: int, j0: int|
                        0 <= i0 < old_index.len() && 0 <= j0 < old_index[i0].1@.len() && (
                        #[trigger] old_index[i0].1@[j0])@ == new_index[a].1@[b]@ by {
                    if a == i && b == old_names.len() {
                    } else {
                        assert(old_index[a].1@[b] == new_index[a].1@[b]);
                    }
                }
            }
            return;
        }
        i = i + 1;
    }
    let mut names: Vec<String> = Vec::new();
    names.push(name);
    index.push((key, names));
    proof {
        let new_index = index@;
        assert(new_index =~= old_index.push((key, names)));
        assert forall|k: PatternGenre| #[trigger] index_names(new_index, k) == if k == key {
            index_names(old_index, k).push(name@)
        } else {
            index_names(old_index, k)
        } by {
            if k == key {
                assert(new_index[old_index.len() as int].0 == key);
                assert(!exists|x: int| 0 <= x < old_index.len() && (#[trigger] old_index[x]).0 == k);
                assert(names@.map_values(|s: String| s@) =~= seq![name@]);
                assert(Seq::<Seq<char>>::empty().push(name@) =~= seq![name@]);
            } else {
                if exists|x: int| 0 <= x < new_index.len() && (#[trigger] new_index[x]).0 == k {
                    let x = choose|x: int| 0 <= x < new_index.len() && (#[trigger] new_index[x]).0 == k;
                    assert(x < old_index.len());
                    assert(old_index[x] == new_index[x]);
                }
                if exists|x: int| 0 <= x < old_index.len() && (#[trigger] old_index[x]).0 == k {
                    let x = choose|x: int| 0 <= x < old_index.len() && (#[trigger] old_index[x]).0 == k;
                    assert(new_index[x] == old_index[x]);
                }
            }
        }
        assert forall|a: int, b: int|
            0 <= a < new_index.len() && 0 <= b < new_index[a].1@.len() implies (
            #[trigger] new_index[a].1@[b])@ == name@ || exists|i0: int, j0: int|
                0 <= i0 < old_index.len() && 0 <= j0 < old_index[i0].1@.len() && (
                #[trigger] old_index[i0].1@[j0])@ == new_index[a].1@[b]@ by {
            if a < old_index.len() {
                assert(old_index[a].1@[b] == new_index[a].1@[b]);
            }
        }
    }
}

/// Add `name` to the list under difficulty `key`, starting a list for a new key.
fn index_push_difficulty(index: &mut Vec<(u8, Vec<String>)>, key: u8, name: String)
    requires
        keys_distinct(old(index)@),
    ensures
        keys_distinct(final(index)@),
        forall|k: u8|
            #![trigger index_names(final(index)@, k)]
            index_names(final(index)@, k) == if k == key {
                index_names(old(index)@, k).push(name@)
            } else {
                index_names(old(index)@, k)
            },
        forall|i: int, j: int|
            0 <= i < final(index)@.len() && 0 <= j < final(index)@[i].1@.len() ==> (
            #[trigger] final(index)@[i].1@[j])@ == name@ || exists|i0: int, j0: int|
                0 <= i0 < old(index)@.len() && 0 <= j0 < old(index)@[i0].1@.len() && (
                #[trigger] old(index)@[i0].1@[j0])@ == final(index)@[i].1@[j]@,
{
    let ghost old_index = index@;
    let ghost gname: String = name;
    let mut i: usize = 0;
    while i < index.len()
        invariant
            index@ == old_index,
            old(index)@ == old_index,
            gname == name,
            keys_distinct(old_index),
            i <= index.len(),
            forall|k: int| 0 <= k < i ==> (#[trigger] index@[k]).0 != key,
        decreases index.len() - i,
    {
        if index[i].0 == key {
            let ghost old_names = index@[i as int].1@;
            let (k, mut names) = index.remove(i);
            names.push(name);
            index.insert(i, (k, names));
            proof {
                let new_index = index@;
                assert(new_index =~= old_index.update(i as int, (key, names)));
                assert(new_index[i as int].1@ == old_names.push(gname));
                assert forall|k: u8| #[trigger] index_names(new_index, k) == if k == key {
                    index_names(old_index, k).push(gname@)
                } else {
                    index_names(old_index, k)
                } by {
                    if k == key {
                        assert(new_index[i as int].0 == key);
                        assert(old_index[i as int].0 == key);
                        assert(new_index[i as int].1@.map_values(|s: String| s@) =~= old_names.map_values(
                            |s: String| s@,
                        ).push(gname@));
                    } else {
                        if exists|x: int| 0 <= x < new_index.len() && (#[trigger] new_index[x]).0 == k {
                            let x = choose|x: int| 0 <= x < new_index.len() && (#[trigger] new_index[x]).0 == k;
                            assert(x != i);
                            assert(old_index[x] == new_index[x]);
                        }
                        if exists|x: int| 0 <= x < old_index.len() && (#[trigger] old_index[x]).0 == k {
                            let x = choose|x: int| 0 <= x < old_index.len() && (#[trigger] old_index[x]).0 == k;
                            assert(new_index[x] == old_index[x]);
                        }
                    }
                }
                assert forall|a: int, b: int|
                    0 <= a < new_index.len() && 0 <= b < new_index[a].1@.len() implies (
                    #[trigger] new_index[a].1@[b])@ == gname@ || exists|i0: int, j0: int|
                        0 <= i0 < old_index.len() && 0 <= j0 < old_index[i0].1@.len() && (
                        #[trigger] old_index[i0].1@[j0])@ == new_index[a].1@[b]@ by {
                    if a == i && b == old_names.len() {
                    } else {
                        assert(old_index[a].1@[b] == new_index[a].1@[b]);
                    }
                }
            }
            return;
        }
        i = i + 1;
    }
    let mut names: Vec<String> = Vec::new();
    names.push(name);
    index.push((key, names));
    proof {
        let new_index = index@;
        assert(new_index =~= old_index.push((key, names)));
        assert forall|k: u8| #[trigger] index_names(new_index, k) == if k == key {
            index_names(old_index, k).push(name@)
        } else {
            index_names(old_index, k)
        } by {
            if k == key {
                assert(new_index[old_index.len() as int].0 == key);
                assert(!exists|x: int| 0 <= x < old_index.len() && (#[trigger] old_index[x]).0 == k);
                assert(names@.map_values(|s: String| s@) =~= seq![name@]);
                assert(Seq::<Seq<char>>::empty().push(name@) =~= seq![name@]);
            } else {
                if exists|x: int| 0 <= x < new_index.len() && (#[trigger] new_index[x]).0 == k {
                    let x = choose|x: int| 0 <= x < new_index.len() && (#[trigger] new_index[x]).0 == k;
                    assert(x < old_index.len());
                    assert(old_index[x] == new_index[x]);
                }
                if exists|x: int| 0 <= x < old_index.len() && (#[trigger] old_index[x]).0 == k {
                    let x = choose|x: int| 0 <= x < old_index.len() && (#[trigger] old_index[x]).0 == k;
                    assert(new_index[x] == old_index[x]);
                }
            }
        }
        assert forall|a: int, b: int|
            0 <= a < new_index.len() && 0 <= b < new_index[a].1@.len() implies (
            #[trigger] new_index[a].1@[b])@ == name@ || exists|i0: int, j0: int|
                0 <= i0 < old_index.len() && 0 <= j0 < old_index[i0].1@.len() && (
                #[trigger] old_index[i0].1@[j0])@ == new_index[a].1@[b]@ by {
            if a < old_index.len() {
                assert(old_index[a].1@[b] == new_index[a].1@[b]);
            }
        }
    }
}

/// Reading back after adding: the pattern added under a name is the one stored
/// under it, the number of patterns grows exactly when the name is new, and
/// every other name keeps its pattern.
pub proof fn law_get_after_add<P>(entries: Seq<(PatternInfo, P)>, info: PatternInfo, pattern: P, other: Seq<char>)
    requires
        names_distinct(entries),
        other != info.name@,
    ensures
        has_name(with_pattern(entries, info, pattern), info.name@),
        lookup(with_pattern(entries, info, pattern), info.name@) == pattern,
        with_pattern(entries, info, pattern).len() == entries.len() + if has_name(entries, info.name@) {
            0int
        } else {
            1int
        },
        has_name(with_pattern(entries, info, pattern), other) == has_name(entries, other),
        has_name(entries, other) ==> lookup(with_pattern(entries, info, pattern), other) == lookup(
            entries,
            other,
        ),
{
    let new = with_pattern(entries, info, pattern);
    let name = info.name@;
    if has_name(entries, name) {
        let q = position_of(entries, name);
        assert(new[q].0.name@ == name);
        let p = position_of(new, name);
        if p != q {
            assert(new[p].0.name@ == entries[p].0.name@);
            assert(entries[p].0.name@ != entries[q].0.name@);
        }
    } else {
        let last = entries.len() as int;
        assert(new[last].0.name@ == name);
        let p = position_of(new, name);
        if p != last {
            assert(new[p] == entries[p]);
            assert(has_name(entries, name));
        }
    }
    if has_name(entries, other) {
        let k = position_of(entries, other);
        assert(new[k] == entries[k]);
        assert(has_name(new, other));
        let p = position_of(new, other);
        if p != k {
            assert(new[p].0.name@ == other);
            assert(new[p] == entries[p]);
            assert(entries[p].0.name@ != entries[k].0.name@);
        }
    }
    if has_name(new, other) {
        let p = position_of(new, other);
        if p < entries.len() {
            assert(new[p] == entries[p]);
        }
    }
}

/// Pattern library for managing collections of drum patterns.
#[verifier::reject_recursive_types(P)]
pub struct PatternLibrary<P> {
    /// All patterns with what the library reads of them, in the order first added
    entries: Vec<(PatternInfo, P)>,
    /// Names by genre, in the order added (a name added twice is listed twice)
    genre_index: Vec<(PatternGenre, Vec<String>)>,
    /// Names by difficulty, in the order added
    difficulty_index: Vec<(u8, Vec<String>)>,
}

impl<P> PatternLibrary<P> {
    /// The stored patterns, in the order their names were first added.
    pub closed spec fn entries_view(self) -> Seq<(PatternInfo, P)> {
        self.entries@
    }

    /// The names listed under `genre`, in the order added.
    pub closed spec fn genre_view(self, genre: PatternGenre) -> Seq<Seq<char>> {
        index_names(self.genre_index@, genre)
    }

    /// The names listed under `difficulty`, in the order added.
    pub closed spec fn difficulty_view(self, difficulty: u8) -> Seq<Seq<char>> {
        index_names(self.difficulty_index@, difficulty)
    }

    /// Names are unique, each index key is listed once, and every indexed name is stored.
    pub closed spec fn wf(self) -> bool {
        &&& names_distinct(self.entries@)
        &&& keys_distinct(self.genre_index@)
        &&& keys_distinct(self.difficulty_index@)
        &&& index_names_stored(self.genre_index@, self.entries@)
        &&& index_names_stored(self.difficulty_index@, self.entries@)
    }

    /// An empty library.
    pub fn new() -> (r: Self)
        ensures
            r.wf(),
            r.entries_view() == Seq::<(PatternInfo, P)>::empty(),
            forall|g: PatternGenre| r.genre_view(g) == Seq::<Seq<char>>::empty(),
            forall|d: u8| r.difficulty_view(d) == Seq::<Seq<char>>::empty(),
    {
        Self { entries: Vec::new(), genre_index: Vec::new(), difficulty_index: Vec::new() }
    }

    /// Number of patterns.
    pub fn count(&self) -> (r: usize)
        ensures
            r == self.entries_view().len(),
    {
        self.entries.len()
    }

    /// The stored pattern with the given name, if any.
    pub fn get_pattern(&self, name: &str) -> (r: Option<&P>)
        requires
            self.wf(),
        ensures
            match r {
                Some(p) => has_name(self.entries_view(), name@) && *p == lookup(
                    self.entries_view(),
                    name@,
                ),
                None => !has_name(self.entries_view(), name@),
            },
    {
        let key = name.to_owned();
        match self.find(&key) {
            Some(i) => Some(&self.entries[i].1),
            None => None,
        }
    }

    /// Position of the pattern named `name`, if any.
    fn find(&self, name: &String) -> (r: Option<usize>)
        requires
            self.wf(),
        ensures
            match r {
                Some(i) => has_name(self.entries_view(), name@) && i == position_of(
                    self.entries_view(),
                    name@,
                ) && i < self.entries_view().len(),
                None => !has_name(self.entries_view(), name@),
            },
    {
        let mut i: usize = 0;
        while i < self.entries.len()
            invariant
                self.wf(),
                i <= self.entries@.len(),
                forall|k: int| 0 <= k < i ==> (#[trigger] self.entries@[k]).0.name@ != name@,
            decreases self.entries.len() - i,
        {
            if self.entries[i].0.name == *name {
                assert(self.entries@[i as int].0.name@ == name@);
                let ghost p = position_of(self.entries@, name@);
                assert(self.entries@[p].0.name@ == name@);
                assert(p == i as int) by {
                    if p != i as int {
                        assert(self.entries@[p].0.name@ != self.entries@[i as int].0.name@);
                    }
                }
                return Some(i);
            }
            i = i + 1;
        }
        None
    }

    /// All stored patterns, in the order their names were first added.
    pub fn all_patterns(&self) -> (r: Vec<&P>)
        ensures
            r@.len() == self.entries_view().len(),
            forall|i: int| 0 <= i < r@.len() ==> *(#[trigger] r@[i]) == self.entries_view()[i].1,
    {
        let mut out: Vec<&P> = Vec::new();
        let mut i: usize = 0;
        while i < self.entries.len()
            invariant
                i <= self.entries@.len(),
                out@.len() == i,
                forall|k: int| 0 <= k < i ==> *(#[trigger] out@[k]) == self.entries@[k].1,
            decreases self.entries.len() - i,
        {
            out.push(&self.entries[i].1);
            i = i + 1;
        }
        out
    }

    /// The patterns whose recommended tempo range holds `tempo_bpm`.
    pub fn patterns_for_tempo(&self, tempo_bpm: u32) -> (r: Vec<&P>)
        ensures
            r@.len() == select(self.entries_view(), |info: PatternInfo| info.suits_tempo(tempo_bpm as int)).len(),
            forall|i: int|
                0 <= i < r@.len() ==> *(#[trigger] r@[i]) == select(
                    self.entries_view(),
                    |info: PatternInfo| info.suits_tempo(tempo_bpm as int),
                )[i],
    {
        let ghost pred = |info: PatternInfo| info.suits_tempo(tempo_bpm as int);
        let mut out: Vec<&P> = Vec::new();
        let mut i: usize = 0;
        while i < self.entries.len()
            invariant
                i <= self.entries@.len(),
                pred == (|info: PatternInfo| info.suits_tempo(tempo_bpm as int)),
                out@.len() == select(self.entries@.take(i as int), pred).len(),
                forall|k: int|
                    0 <= k < out@.len() ==> *(#[trigger] out@[k]) == select(
                        self.entries@.take(i as int),
                        pred,
                    )[k],
            decreases self.entries.len() - i,
        {
            assert(self.entries@.take(i + 1).drop_last() =~= self.entries@.take(i as int));
            let (lo, hi) = self.entries[i].0.tempo_range;
            if tempo_bpm >= lo && tempo_bpm <= hi {
                out.push(&self.entries[i].1);
            }
            i = i + 1;
        }
        assert(self.entries@.take(self.entries@.len() as int) =~= self.entries@);
        out
    }

    /// The patterns listed under `genre`, in the order they were added there.
    pub fn patterns_by_genre(&self, genre: &PatternGenre) -> (r: Vec<&P>)
        requires
            self.wf(),
        ensures
            r@.len() == self.genre_view(*genre).len(),
            forall|i: int|
                0 <= i < r@.len() ==> *(#[trigger] r@[i]) == lookup(
                    self.entries_view(),
                    self.genre_view(*genre)[i],
                ),
    {
        let mut i: usize = 0;
        while i < self.genre_index.len()
            invariant
                self.wf(),
                i <= self.genre_index@.len(),
                forall|k: int| 0 <= k < i ==> (#[trigger] self.genre_index@[k]).0 != *genre,
            decreases self.genre_index.len() - i,
        {
            if self.genre_index[i].0 == *genre {
                proof {
                    let x = choose|x: int|
                        0 <= x < self.genre_index@.len() && (#[trigger] self.genre_index@[x]).0 == *genre;
                    assert(self.genre_index@[i as int].0 == *genre);
                    if x != i as int {
                        assert(self.genre_index@[x].0 != self.genre_index@[i as int].0);
                    }
                }
                return self.lookup_names(&self.genre_index[i].1);
            }
            i = i + 1;
        }
        Vec::new()
    }

    /// The patterns listed under `difficulty`, in the order they were added there.
    pub fn patterns_by_difficulty(&self, difficulty: u8) -> (r: Vec<&P>)
        requires
            self.wf(),
        ensures
            r@.len() == self.difficulty_view(difficulty).len(),
            forall|i: int|
                0 <= i < r@.len() ==> *(#[trigger] r@[i]) == lookup(
                    self.entries_view(),
                    self.difficulty_view(difficulty)[i],
                ),
    {
        let mut i: usize = 0;
        while i < self.difficulty_index.len()
            invariant
                self.wf(),
                i <= self.difficulty_index@.len(),
                forall|k: int| 0 <= k < i ==> (#[trigger] self.difficulty_index@[k]).0 != difficulty,
            decreases self.difficulty_index.len() - i,
        {
            if self.difficulty_index[i].0 == difficulty {
                proof {
                    let x = choose|x: int|
                        0 <= x < self.difficulty_index@.len() && (#[trigger] self.difficulty_index@[x]).0
                            == difficulty;
                    assert(self.difficulty_index@[i as int].0 == difficulty);
                    if x != i as int {
                        assert(self.difficulty_index@[x].0 != self.difficulty_index@[i as int].0);
                    }
                }
                return self.lookup_names(&self.difficulty_index[i].1);
            }
            i = i + 1;
        }
        Vec::new()
    }

    /// The stored patterns named by `names`, in order.
    fn lookup_names(&self, names: &Vec<String>) -> (r: Vec<&P>)
        requires
            self.wf(),
            forall|j: int| 0 <= j < names@.len() ==> has_name(self.entries_view(), (#[trigger] names@[j])@),
        ensures
            r@.len() == names@.len(),
            forall|i: int| 0 <= i < r@.len() ==> *(#[trigger] r@[i]) == lookup(self.entries_view(), names@[i]@),
    {
        let mut out: Vec<&P> = Vec::new();
        let mut j: usize = 0;
        while j < names.len()
            invariant
                self.wf(),
                forall|k: int| 0 <= k < names@.len() ==> has_name(self.entries_view(), (#[trigger] names@[k])@),
                j <= names@.len(),
                out@.len() == j,
                forall|k: int| 0 <= k < j ==> *(#[trigger] out@[k]) == lookup(self.entries_view(), names@[k]@),
            decreases names.len() - j,
        {
            let name = &names[j];
            assert(has_name(self.entries_view(), names@[j as int]@));
            match self.find(name) {
                Some(i) => {
                    out.push(&self.entries[i].1);
                },
                None => {
                    assert(false);
                },
            }
            j = j + 1;
        }
        out
    }

    /// Add a pattern under its name, replacing a stored pattern of the same
    /// name, and list the name under its genre and its difficulty.
    pub fn add_pattern(&mut self, info: PatternInfo, pattern: P)
        requires
            old(self).wf(),
        ensures
            final(self).wf(),
            final(self).entries_view() == with_pattern(old(self).entries_view(), info, pattern),
            forall|g: PatternGenre|
                #![trigger final(self).genre_view(g)]
                final(self).genre_view(g) == if g == info.metadata.genre {
                    old(self).genre_view(g).push(info.name@)
                } else {
                    old(self).genre_view(g)
                },
            forall|d: u8|
                #![trigger final(self).difficulty_view(d)]
                final(self).difficulty_view(d) == if d == info.metadata.difficulty {
                    old(self).difficulty_view(d).push(info.name@)
                } else {
                    old(self).difficulty_view(d)
                },
    {
        let ghost old_entries = self.entries@;
        let ghost gname = info.name@;
        let position = self.find(&info.name);
        let name = info.name.clone();
        let genre = info.metadata.genre;
        let difficulty = info.metadata.difficulty;
        index_push_genre(&mut self.genre_index, genre, name.clone());
        index_push_difficulty(&mut self.difficulty_index, difficulty, name);
        let ghost new_entry = (info, pattern);
        match position {
            Some(p) => {
                self.entries.remove(p);
                self.entries.insert(p, (info, pattern));
                assert(self.entries@ =~= old_entries.update(p as int, new_entry));
            },
            None => {
                self.entries.push((info, pattern));
            },
        }
        proof {
            let new_entries = self.entries@;
            // the names stored before are still stored, and so is the new one
            assert forall|n: Seq<char>| has_name(old_entries, n) implies has_name(new_entries, n) by {
                let k = choose|k: int| 0 <= k < old_entries.len() && (#[trigger] old_entries[k]).0.name@ == n;
                assert(new_entries[k].0.name@ == n);
            }
            if has_name(old_entries, gname) {
                let q = position_of(old_entries, gname);
                assert(new_entries[q].0.name@ == gname);
                assert forall|a: int, b: int|
                    0 <= a < new_entries.len() && 0 <= b < new_entries.len() && a != b implies (
                    #[trigger] new_entries[a]).0.name@ != (#[trigger] new_entries[b]).0.name@ by {
                    assert(new_entries[a].0.name@ == old_entries[a].0.name@);
                    assert(new_entries[b].0.name@ == old_entries[b].0.name@);
                    assert(old_entries[a].0.name@ != old_entries[b].0.name@);
                }
            } else {
                assert(new_entries[old_entries.len() as int].0.name@ == gname);
                assert forall|a: int, b: int|
                    0 <= a < new_entries.len() && 0 <= b < new_entries.len() && a != b implies (
                    #[trigger] new_entries[a]).0.name@ != (#[trigger] new_entries[b]).0.name@ by {
                    if a < old_entries.len() && b < old_entries.len() {
                        assert(old_entries[a].0.name@ != old_entries[b].0.name@);
                    } else if a < old_entries.len() {
                        assert(old_entries[a].0.name@ != gname);
                    } else if b < old_entries.len() {
                        assert(old_entries[b].0.name@ != gname);
                    }
                }
            }
            assert(has_name(new_entries, gname));
            assert forall|a: int, b: int|
                0 <= a < self.genre_index@.len() && 0 <= b < self.genre_index@[a].1@.len() implies has_name(
                new_entries,
                (#[trigger] self.genre_index@[a].1@[b])@,
            ) by {
                let n = self.genre_index@[a].1@[b]@;
                if n != gname {
                    let (i0, j0) = choose|i0: int, j0: int|
                        0 <= i0 < old(self).genre_index@.len() && 0 <= j0 < old(self).genre_index@[i0].1@.len() && (
                        #[trigger] old(self).genre_index@[i0].1@[j0])@ == n;
                    assert(has_name(old_entries, n));
                }
            }
            assert forall|a: int, b: int|
                0 <= a < self.difficulty_index@.len() && 0 <= b < self.difficulty_index@[a].1@.len()
                    implies has_name(new_entries, (#[trigger] self.difficulty_index@[a].1@[b])@) by {
                let n = self.difficulty_index@[a].1@[b]@;
                if n != gname {
                    let (i0, j0) = choose|i0: int, j0: int|
                        0 <= i0 < old(self).difficulty_index@.len() && 0 <= j0 < old(
                            self,
                        ).difficulty_index@[i0].1@.len() && (#[trigger] old(
                            self,
                        ).difficulty_index@[i0].1@[j0])@ == n;
                    assert(has_name(old_entries, n));
                }
            }
        }
    }

    /// The patterns matching `query`, ignoring case: the query occurs in the
    /// name, display name, description or a tag.
    pub fn search_patterns(&self, query: &str) -> (r: Vec<&P>)
        ensures
            r@.len() == select(self.entries_view(), |info: PatternInfo| matches_query(info, lowercase(query@))).len(),
            forall|i: int|
                0 <= i < r@.len() ==> *(#[trigger] r@[i]) == select(
                    self.entries_view(),
                    |info: PatternInfo| matches_query(info, lowercase(query@)),
                )[i],
    {
        let query_lower = to_lowercase(query);
        let needle = chars_of(query_lower.as_str());
        let ghost pred = |info: PatternInfo| matches_query(info, lowercase(query@));
        let mut out: Vec<&P> = Vec::new();
        let mut i: usize = 0;
        while i < self.entries.len()
            invariant
                i <= self.entries@.len(),
                needle@ == lowercase(query@),
                pred == (|info: PatternInfo| matches_query(info, lowercase(query@))),
                out@.len() == select(self.entries@.take(i as int), pred).len(),
                forall|k: int|
                    0 <= k < out@.len() ==> *(#[trigger] out@[k]) == select(
                        self.entries@.take(i as int),
                        pred,
                    )[k],
            decreases self.entries.len() - i,
        {
            assert(self.entries@.take(i + 1).drop_last() =~= self.entries@.take(i as int));
            if info_matches(&self.entries[i].0, &needle) {
                out.push(&self.entries[i].1);
            }
            i = i + 1;
        }
        assert(self.entries@.take(self.entries@.len() as int) =~= self.entries@);
        out
    }

    /// Remove all patterns.
    pub fn clear(&mut self)
        ensures
            final(self).wf(),
            final(self).entries_view() == Seq::<(PatternInfo, P)>::empty(),
            forall|g: PatternGenre| final(self).genre_view(g) == Seq::<Seq<char>>::empty(),
            forall|d: u8| final(self).difficulty_view(d) == Seq::<Seq<char>>::empty(),
    {
        self.entries.clear();
        self.genre_index.clear();
        self.difficulty_index.clear();
    }
}

} // verus!
