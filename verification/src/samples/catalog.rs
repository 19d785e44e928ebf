//! Sample categories, drum types, and the sample catalog: samples by name,
//! with indexes by category and by tag.

use vstd::prelude::*;
use vstd::string::*;
use crate::patterns::library::{index_names, keys_distinct};
use crate::patterns::io::sample_name_view;
use crate::timing::types::ClickType;

verus! {

/// Sample category for organization and filtering.
#[derive(Debug, Clone, Copy, PartialEq, Eq, Structural, Hash)]
pub enum SampleCategory {
    /// Drum samples (kick, snare, hi-hat, etc.)
    Drums,
    /// General percussion (shakers, bells, etc.)
    Percussion,
    /// Melodic instruments
    Melodic,
    /// Bass instruments
    Bass,
    /// Lead instruments
    Lead,
    /// Pad/ambient sounds
    Pad,
    /// Sound effects
    SFX,
    /// Vocal samples
    Vocal,
    /// Synthetic sounds
    Synthetic,
    /// Uncategorized
    Other,
}

/// All sample categories, in declaration order.
pub open spec fn category_list() -> Seq<SampleCategory> {
    seq![
        SampleCategory::Drums,
        SampleCategory::Percussion,
        SampleCategory::Melodic,
        SampleCategory::Bass,
        SampleCategory::Lead,
        SampleCategory::Pad,
        SampleCategory::SFX,
        SampleCategory::Vocal,
        SampleCategory::Synthetic,
        SampleCategory::Other,
    ]
}

impl SampleCategory {
    /// Display name of the category.
    pub open spec fn display_view(self) -> Seq<char> {
        match self {
            SampleCategory::Drums => "Drums"@,
            SampleCategory::Percussion => "Percussion"@,
            SampleCategory::Melodic => "Melodic"@,
            SampleCategory::Bass => "Bass"@,
            SampleCategory::Lead => "Lead"@,
            SampleCategory::Pad => "Pad"@,
            SampleCategory::SFX => "Sound Effects"@,
            SampleCategory::Vocal => "Vocal"@,
            SampleCategory::Synthetic => "Synthetic"@,
            SampleCategory::Other => "Other"@,
        }
    }

    /// All available categories.
    pub fn all() -> (r: Vec<SampleCategory>)
        ensures
            r@ == category_list(),
    {
        let r = vec![
            SampleCategory::Drums,
            SampleCategory::Percussion,
            SampleCategory::Melodic,
            SampleCategory::Bass,
            SampleCategory::Lead,
            SampleCategory::Pad,
            SampleCategory::SFX,
            SampleCategory::Vocal,
            SampleCategory::Synthetic,
            SampleCategory::Other,
        ];
        assert(r@ =~= category_list());
        r
    }

    /// Display name for the category.
    pub fn display_name(&self) -> (r: &'static str)
        ensures
            r@ == self.display_view(),
    {
        match self {
            SampleCategory::Drums => "Drums",
            SampleCategory::Percussion => "Percussion",
            SampleCategory::Melodic => "Melodic",
            SampleCategory::Bass => "Bass",
            SampleCategory::Lead => "Lead",
            SampleCategory::Pad => "Pad",
            SampleCategory::SFX => "Sound Effects",
            SampleCategory::Vocal => "Vocal",
            SampleCategory::Synthetic => "Synthetic",
            SampleCategory::Other => "Other",
        }
    }
}

/// Every category appears once in the list of all categories.
pub proof fn law_category_list_complete(c: SampleCategory)
    ensures
        category_list().contains(c),
        category_list().no_duplicates(),
{
    let l = category_list();
    match c {
        SampleCategory::Drums => assert(l[0] == c),
        SampleCategory::Percussion => assert(l[1] == c),
        SampleCategory::Melodic => assert(l[2] == c),
        SampleCategory::Bass => assert(l[3] == c),
        SampleCategory::Lead => assert(l[4] == c),
        SampleCategory::Pad => assert(l[5] == c),
        SampleCategory::SFX => assert(l[6] == c),
        SampleCategory::Vocal => assert(l[7] == c),
        SampleCategory::Synthetic => assert(l[8] == c),
        SampleCategory::Other => assert(l[9] == c),
    }
}

/// Drum type for specialized drum sample configuration.
#[derive(Debug, Clone, Copy, PartialEq, Eq, Structural)]
pub enum DrumType {
    Kick,
    Snare,
    HiHat,
    Cymbal,
    Tom,
    Percussion,
}

impl DrumType {
    /// Lower-case tag of the drum type.
    pub open spec fn tag_view(self) -> Seq<char> {
        match self {
            DrumType::Kick => "kick"@,
            DrumType::Snare => "snare"@,
            DrumType::HiHat => "hihat"@,
            DrumType::Cymbal => "cymbal"@,
            DrumType::Tom => "tom"@,
            DrumType::Percussion => "percussion"@,
        }
    }

    /// Lower-case name of the drum type, used as a sample tag.
    pub fn to_string(&self) -> (r: String)
        ensures
            r@ == self.tag_view(),
    {
        match self {
            DrumType::Kick => String::from_str("kick"),
            DrumType::Snare => String::from_str("snare"),
            DrumType::HiHat => String::from_str("hihat"),
            DrumType::Cymbal => String::from_str("cymbal"),
            DrumType::Tom => String::from_str("tom"),
            DrumType::Percussion => String::from_str("percussion"),
        }
    }
}

/// The drum type of a metronome sound the catalog holds as a drum sample:
/// kick, snare and the two hi-hats.
pub open spec fn click_drum(c: ClickType) -> Option<DrumType> {
    match c {
        ClickType::AcousticKick => Some(DrumType::Kick),
        ClickType::AcousticSnare => Some(DrumType::Snare),
        ClickType::HiHatClosed | ClickType::HiHatOpen => Some(DrumType::HiHat),
        _ => None,
    }
}

/// A drum type's tag is one lower-case word (letters a to z, no separators),
/// distinct drum types have distinct tags, and the catalog's name of each
/// drum sound starts with its drum type's tag (`kick`, `snare`,
/// `hihat_closed`, `hihat_open`), so a search by tag finds them.
pub proof fn law_drum_tags(d: DrumType, e: DrumType, c: ClickType)
    ensures
        d.tag_view().len() > 0,
        forall|i: int| 0 <= i < d.tag_view().len() ==> 'a' <= #[trigger] d.tag_view()[i] <= 'z',
        d.tag_view() == e.tag_view() ==> d == e,
        click_drum(c) == Some(d) ==> sample_name_view(c).take(d.tag_view().len() as int)
            == d.tag_view(),
{
    reveal_strlit("kick");
    reveal_strlit("snare");
    reveal_strlit("hihat");
    reveal_strlit("cymbal");
    reveal_strlit("tom");
    reveal_strlit("percussion");
    reveal_strlit("hihat_closed");
    reveal_strlit("hihat_open");
    if click_drum(c) == Some(d) {
        assert(sample_name_view(c).take(d.tag_view().len() as int) =~= d.tag_view());
    }
    if d.tag_view() == e.tag_view() && d != e {
        assert(d.tag_view().len() == e.tag_view().len());
        assert(d.tag_view()[0] == e.tag_view()[0]);
        assert(d.tag_view()[1] == e.tag_view()[1]);
    }
}

/// What the catalog reads of a sample: its name, category and tags.
#[derive(Debug, Clone)]
pub struct SampleInfo {
    /// Unique identifier for the sample
    pub name: String,
    /// Sample category for organization
    pub category: SampleCategory,
    /// Tags for filtering and search
    pub tags: Vec<String>,
}

/// Some catalog entry is named `name`.
pub open spec fn catalog_has<M>(entries: Seq<(SampleInfo, M)>, name: Seq<char>) -> bool {
    exists|i: int| 0 <= i < entries.len() && (#[trigger] entries[i]).0.name@ == name
}

/// The position of the entry named `name` (meaningful when there is one).
pub open spec fn catalog_position<M>(entries: Seq<(SampleInfo, M)>, name: Seq<char>) -> int {
    choose|i: int| 0 <= i < entries.len() && (#[trigger] entries[i]).0.name@ == name
}

/// No two catalog entries share a name.
pub open spec fn catalog_names_distinct<M>(entries: Seq<(SampleInfo, M)>) -> bool {
    forall|i: int, j: int|
        0 <= i < entries.len() && 0 <= j < entries.len() && i != j ==> (#[trigger] entries[i]).0.name@
            != (#[trigger] entries[j]).0.name@
}

/// The entries after storing `meta` under `info.name`: in place of a sample
/// of that name, or appended.
pub open spec fn catalog_with<M>(entries: Seq<(SampleInfo, M)>, info: SampleInfo, meta: M) -> Seq<
    (SampleInfo, M),
> {
    if catalog_has(entries, info.name@) {
        entries.update(catalog_position(entries, info.name@), (info, meta))
    } else {
        entries.push((info, meta))
    }
}

/// The sample stored under `name`.
pub open spec fn catalog_lookup<M>(entries: Seq<(SampleInfo, M)>, name: Seq<char>) -> M {
    entries[catalog_position(entries, name)].1
}

/// The names listed under `tag` in a tag index (none when the tag has no list).
pub open spec fn tag_names(index: Seq<(String, Vec<String>)>, tag: Seq<char>) -> Seq<Seq<char>> {
    if exists|i: int| 0 <= i < index.len() && (#[trigger] index[i]).0@ == tag {
        let i = choose|i: int| 0 <= i < index.len() && (#[trigger] index[i]).0@ == tag;
        index[i].1@.map_values(|s: String| s@)
    } else {
        Seq::empty()
    }
}

/// A tag index lists each tag at most once.
pub open spec fn tag_keys_distinct(index: Seq<(String, Vec<String>)>) -> bool {
    forall|i: int, j: int|
        0 <= i < index.len() && 0 <= j < index.len() && i != j ==> (#[trigger] index[i]).0@
            != (#[trigger] index[j]).0@
}

/// Every list of an index holds a name.
pub open spec fn lists_nonempty<K>(index: Seq<(K, Vec<String>)>) -> bool {
    forall|i: int| 0 <= i < index.len() ==> (#[trigger] index[i]).1@.len() > 0
}

/// Every name an index lists belongs to some catalog entry.
pub open spec fn listed_names_stored<K, M>(index: Seq<(K, Vec<String>)>, entries: Seq<(SampleInfo, M)>) -> bool {
    forall|i: int, j: int|
        0 <= i < index.len() && 0 <= j < index[i].1@.len() ==> catalog_has(
            entries,
            (#[trigger] index[i].1@[j])@,
        )
}

/// Every name an index lists is `name` or listed in `before`.
pub open spec fn listed_new_or_before<K>(
    index: Seq<(K, Vec<String>)>,
    before: Seq<(K, Vec<String>)>,
    name: Seq<char>,
) -> bool {
    forall|i: int, j: int|
        0 <= i < index.len() && 0 <= j < index[i].1@.len() ==> (#[trigger] index[i].1@[j])@ == name
            || exists|i0: int, j0: int|
            0 <= i0 < before.len() && 0 <= j0 < before[i0].1@.len() && (#[trigger] before[i0].1@[j0])@
                == index[i].1@[j]@
}

/// The names listed under `tag` after listing `name` once under each of
/// `tags`, in order, starting from `listed`.
pub open spec fn listed_under_tags(
    listed: Seq<Seq<char>>,
    tags: Seq<Seq<char>>,
    tag: Seq<char>,
    name: Seq<char>,
) -> Seq<Seq<char>>
    decreases tags.len(),
{
    if tags.len() == 0 {
        listed
    } else {
        let before = listed_under_tags(listed, tags.drop_last(), tag, name);
        if tags.last() == tag {
            before.push(name)
        } else {
            before
        }
    }
}

/// The texts of a list of strings.
pub open spec fn texts(v: Seq<String>) -> Seq<Seq<char>> {
    v.map_values(|s: String| s@)
}

/// Append `name` to the list at `pos`.
fn push_listed<K>(index: &mut Vec<(K, Vec<String>)>, pos: usize, name: String)
    requires
        pos < old(index)@.len(),
    ensures
        final(index)@.len() == old(index)@.len(),
        final(index)@[pos as int].0 == old(index)@[pos as int].0,
        final(index)@[pos as int].1@ == old(index)@[pos as int].1@.push(name),
        forall|k: int| 0 <= k < final(index)@.len() && k != pos ==> #[trigger] final(index)@[k] == old(index)@[k],
{
    let (key, mut names) = index.remove(pos);
    names.push(name);
    index.insert(pos, (key, names));
}

/// List `name` under category `key`, starting a list for a new key.
fn index_push_category(index: &mut Vec<(SampleCategory, Vec<String>)>, key: SampleCategory, name: String)
    requires
        keys_distinct(old(index)@),
        lists_nonempty(old(index)@),
    ensures
        keys_distinct(final(index)@),
        lists_nonempty(final(index)@),
        forall|k: SampleCategory|
            #![trigger index_names(final(index)@, k)]
            index_names(final(index)@, k) == if k == key {
                index_names(old(index)@, k).push(name@)
            } else {
                index_names(old(index)@, k)
            },
        listed_new_or_before(final(index)@, old(index)@, name@),
{
    let ghost old_index = index@;
    let ghost gname: String = name;
    let mut i: usize = 0;
    while i < index.len()
        invariant
            index@ == old_index,
            old(index)@ == old_index,
            gname == name,
            keys_distinct(old_index),
            lists_nonempty(old_index),
            i <= index.len(),
            forall|k: int| 0 <= k < i ==> (#[trigger] index@[k]).0 != key,
        decreases index.len() - i,
    {
        if index[i].0 == key {
            push_listed(index, i, name);
            proof {
                let new_index = index@;
                assert forall|k: SampleCategory| #[trigger] index_names(new_index, k) == if k == key {
                    index_names(old_index, k).push(gname@)
                } else {
                    index_names(old_index, k)
                } by {
                    if k == key {
                        assert(new_index[i as int].0 == key);
                        assert(texts(new_index[i as int].1@) =~= texts(old_index[i as int].1@).push(gname@));
                    } else {
                        if exists|x: int| 0 <= x < new_index.len() && (#[trigger] new_index[x]).0 == k {
                            let x = choose|x: int| 0 <= x < new_index.len() && (#[trigger] new_index[x]).0 == k;
                            assert(old_index[x] == new_index[x]);
                        }
                        if exists|x: int| 0 <= x < old_index.len() && (#[trigger] old_index[x]).0 == k {
                            let x = choose|x: int| 0 <= x < old_index.len() && (#[trigger] old_index[x]).0 == k;
                            assert(new_index[x] == old_index[x]);
                        }
                    }
                }
                assert forall|a: int, b: int|
                    0 <= a < new_index.len() && 0 <= b < new_index.len() && a != b implies (
                    #[trigger] new_index[a]).0 != (#[trigger] new_index[b]).0 by {
                    assert(new_index[a].0 == old_index[a].0);
                    assert(new_index[b].0 == old_index[b].0);
                }
                assert forall|a: int| 0 <= a < new_index.len() implies (#[trigger] new_index[a]).1@.len() > 0 by {
                    if a != i {
                        assert(new_index[a] == old_index[a]);
                    }
                }
                assert forall|a: int, b: int|
                    0 <= a < new_index.len() && 0 <= b < new_index[a].1@.len() implies (
                    #[trigger] new_index[a].1@[b])@ == gname@ || exists|i0: int, j0: int|
                        0 <= i0 < old_index.len() && 0 <= j0 < old_index[i0].1@.len() && (
                        #[trigger] old_index[i0].1@[j0])@ == new_index[a].1@[b]@ by {
                    if a == i && b == old_index[a].1@.len() {
                    } else if a == i {
                        assert(old_index[a].1@[b] == new_index[a].1@[b]);
                    } else {
                        assert(old_index[a] == new_index[a]);
                        assert(old_index[a].1@[b] == new_index[a].1@[b]);
                    }
                }
            }
            return;
        }
        i = i + 1;
    }
    let mut names: Vec<String> = Vec::new();
    names.push(name);
    index.push((key, names));
    proof {
        let new_index = index@;
        assert(new_index =~= old_index.push((key, names)));
        assert forall|k: SampleCategory| #[trigger] index_names(new_index, k) == if k == key {
            index_names(old_index, k).push(gname@)
        } else {
            index_names(old_index, k)
        } by {
            if k == key {
                assert(new_index[old_index.len() as int].0 == key);
                assert(texts(names@) =~= seq![gname@]);
                assert(Seq::<Seq<char>>::empty().push(gname@) =~= seq![gname@]);
            } else {
                if exists|x: int| 0 <= x < new_index.len() && (#[trigger] new_index[x]).0 == k {
                    let x = choose|x: int| 0 <= x < new_index.len() && (#[trigger] new_index[x]).0 == k;
                    assert(x < old_index.len());
                    assert(old_index[x] == new_index[x]);
                }
                if exists|x: int| 0 <= x < old_index.len() && (#[trigger] old_index[x]).0 == k {
                    let x = choose|x: int| 0 <= x < old_index.len() && (#[trigger] old_index[x]).0 == k;
                    assert(new_index[x] == old_index[x]);
                }
            }
        }
        assert forall|a: int, b: int|
            0 <= a < new_index.len() && 0 <= b < new_index[a].1@.len() implies (
            #[trigger] new_index[a].1@[b])@ == gname@ || exists|i0: int, j0: int|
                0 <= i0 < old_index.len() && 0 <= j0 < old_index[i0].1@.len() && (
                #[trigger] old_index[i0].1@[j0])@ == new_index[a].1@[b]@ by {
            if a < old_index.len() {
                assert(old_index[a].1@[b] == new_index[a].1@[b]);
            }
        }
    }
}

/// List `name` under tag `key`, starting a list for a new tag.
fn index_push_tag(index: &mut Vec<(String, Vec<String>)>, key: String, name: String)
    requires
        tag_keys_distinct(old(index)@),
        lists_nonempty(old(index)@),
    ensures
        tag_keys_distinct(final(index)@),
        lists_nonempty(final(index)@),
        forall|t: Seq<char>|
            #![trigger tag_names(final(index)@, t)]
            tag_names(final(index)@, t) == if t == key@ {
                tag_names(old(index)@, t).push(name@)
            } else {
                tag_names(old(index)@, t)
            },
        listed_new_or_before(final(index)@, old(index)@, name@),
{
    let ghost old_index = index@;
    let ghost gname: String = name;
    let ghost gkey = key@;
    let mut i: usize = 0;
    while i < index.len()
        invariant
            index@ == old_index,
            old(index)@ == old_index,
            gname == name,
            gkey == key@,
            tag_keys_distinct(old_index),
            lists_nonempty(old_index),
            i <= index.len(),
            forall|k: int| 0 <= k < i ==> (#[trigger] index@[k]).0@ != key@,
        decreases index.len() - i,
    {
        if index[i].0 == key {
            push_listed(index, i, name);
            proof {
                let new_index = index@;
                assert(old_index[i as int].0@ == gkey);
                assert forall|t: Seq<char>| #[trigger] tag_names(new_index, t) == if t == gkey {
                    tag_names(old_index, t).push(gname@)
                } else {
                    tag_names(old_index, t)
                } by {
                    if t == gkey {
                        assert(new_index[i as int].0@ == gkey);
                        let x = choose|x: int| 0 <= x < new_index.len() && (#[trigger] new_index[x]).0@ == t;
                        if x != i {
                            assert(new_index[x].0@ == old_index[x].0@);
                        }
                        let y = choose|y: int| 0 <= y < old_index.len() && (#[trigger] old_index[y]).0@ == t;
                        if y != i {
                            assert(old_index[y].0@ != old_index[i as int].0@);
                        }
                        assert(texts(new_index[i as int].1@) =~= texts(old_index[i as int].1@).push(gname@));
                    } else {
                        if exists|x: int| 0 <= x < new_index.len() && (#[trigger] new_index[x]).0@ == t {
                            let x = choose|x: int| 0 <= x < new_index.len() && (#[trigger] new_index[x]).0@ == t;
                            assert(old_index[x] == new_index[x]);
                        }
                        if exists|x: int| 0 <= x < old_index.len() && (#[trigger] old_index[x]).0@ == t {
                            let x = choose|x: int| 0 <= x < old_index.len() && (#[trigger] old_index[x]).0@ == t;
                            assert(new_index[x] == old_index[x]);
                        }
                    }
                }
                assert forall|a: int, b: int|
                    0 <= a < new_index.len() && 0 <= b < new_index.len() && a != b implies (
                    #[trigger] new_index[a]).0@ != (#[trigger] new_index[b]).0@ by {
                    assert(new_index[a].0 == old_index[a].0);
                    assert(new_index[b].0 == old_index[b].0);
                }
                assert forall|a: int| 0 <= a < new_index.len() implies (#[trigger] new_index[a]).1@.len() > 0 by {
                    if a != i {
                        assert(new_index[a] == old_index[a]);
                    }
                }
                assert forall|a: int, b: int|
                    0 <= a < new_index.len() && 0 <= b < new_index[a].1@.len() implies (
                    #[trigger] new_index[a].1@[b])@ == gname@ || exists|i0: int, j0: int|
                        0 <= i0 < old_index.len() && 0 <= j0 < old_index[i0].1@.len() && (
                        #[trigger] old_index[i0].1@[j0])@ == new_index[a].1@[b]@ by {
                    if a == i && b == old_index[a].1@.len() {
                    } else if a == i {
                        assert(old_index[a].1@[b] == new_index[a].1@[b]);
                    } else {
                        assert(old_index[a] == new_index[a]);
                        assert(old_index[a].1@[b] == new_index[a].1@[b]);
                    }
                }
            }
            return;
        }
        i = i + 1;
    }
    let mut names: Vec<String> = Vec::new();
    names.push(name);
    index.push((key, names));
    proof {
        let new_index = index@;
        assert forall|t: Seq<char>| #[trigger] tag_names(new_index, t) == if t == gkey {
            tag_names(old_index, t).push(gname@)
        } else {
            tag_names(old_index, t)
        } by {
            if t == gkey {
                assert(new_index[old_index.len() as int].0@ == gkey);
                let x = choose|x: int| 0 <= x < new_index.len() && (#[trigger] new_index[x]).0@ == t;
                if x < old_index.len() {
                    assert(new_index[x] == old_index[x]);
                }
                assert(texts(names@) =~= seq![gname@]);
                assert(Seq::<Seq<char>>::empty().push(gname@) =~= seq![gname@]);
            } else {
                if exists|x: int| 0 <= x < new_index.len() && (#[trigger] new_index[x]).0@ == t {
                    let x = choose|x: int| 0 <= x < new_index.len() && (#[trigger] new_index[x]).0@ == t;
                    assert(x < old_index.len());
                    assert(old_index[x] == new_index[x]);
                }
                if exists|x: int| 0 <= x < old_index.len() && (#[trigger] old_index[x]).0@ == t {
                    let x = choose|x: int| 0 <= x < old_index.len() && (#[trigger] old_index[x]).0@ == t;
                    assert(new_index[x] == old_index[x]);
                }
            }
        }
        assert forall|a: int, b: int|
            0 <= a < new_index.len() && 0 <= b < new_index.len() && a != b implies (
            #[trigger] new_index[a]).0@ != (#[trigger] new_index[b]).0@ by {
            if a < old_index.len() {
                assert(new_index[a] == old_index[a]);
            }
            if b < old_index.len() {
                assert(new_index[b] == old_index[b]);
            }
        }
        assert forall|a: int| 0 <= a < new_index.len() implies (#[trigger] new_index[a]).1@.len() > 0 by {
            if a < old_index.len() {
                assert(new_index[a] == old_index[a]);
            }
        }
        assert forall|a: int, b: int|
            0 <= a < new_index.len() && 0 <= b < new_index[a].1@.len() implies (
            #[trigger] new_index[a].1@[b])@ == gname@ || exists|i0: int, j0: int|
                0 <= i0 < old_index.len() && 0 <= j0 < old_index[i0].1@.len() && (
                #[trigger] old_index[i0].1@[j0])@ == new_index[a].1@[b]@ by {
            if a < old_index.len() {
                assert(new_index[a] == old_index[a]);
                assert(old_index[a].1@[b] == new_index[a].1@[b]);
            }
        }
    }
}

/// List `name` once under each of `tags`, in order.
fn index_push_tags(index: &mut Vec<(String, Vec<String>)>, tags: &Vec<String>, name: &String)
    requires
        tag_keys_distinct(old(index)@),
        lists_nonempty(old(index)@),
    ensures
        tag_keys_distinct(final(index)@),
        lists_nonempty(final(index)@),
        forall|t: Seq<char>|
            #![trigger tag_names(final(index)@, t)]
            tag_names(final(index)@, t) == listed_under_tags(tag_names(old(index)@, t), texts(tags@), t, name@),
        listed_new_or_before(final(index)@, old(index)@, name@),
{
    let ghost old_tags = index@;
    let ghost tag_texts = texts(tags@);
    let mut k: usize = 0;
    while k < tags.len()
        invariant
            k <= tags@.len(),
            old(index)@ == old_tags,
            tag_texts == texts(tags@),
            tag_keys_distinct(index@),
            lists_nonempty(index@),
            forall|t: Seq<char>|
                #![trigger tag_names(index@, t)]
                tag_names(index@, t) == listed_under_tags(tag_names(old_tags, t), tag_texts.take(k as int), t, name@),
            listed_new_or_before(index@, old_tags, name@),
        decreases tags.len() - k,
    {
        let ghost before = index@;
        index_push_tag(index, tags[k].clone(), name.clone());
        proof {
            assert(tag_texts.take(k + 1).drop_last() =~= tag_texts.take(k as int));
            assert(tag_texts.take(k + 1).last() == tags@[k as int]@);
            assert forall|a: int, b: int|
                0 <= a < index@.len() && 0 <= b < index@[a].1@.len() implies (#[trigger] index@[a].1@[b])@
                == name@ || exists|i0: int, j0: int|
                    0 <= i0 < old_tags.len() && 0 <= j0 < old_tags[i0].1@.len() && (
                    #[trigger] old_tags[i0].1@[j0])@ == index@[a].1@[b]@ by {
                let n = index@[a].1@[b]@;
                if n != name@ {
                    let (i1, j1) = choose|i1: int, j1: int|
                        0 <= i1 < before.len() && 0 <= j1 < before[i1].1@.len() && (
                        #[trigger] before[i1].1@[j1])@ == n;
                    assert(before[i1].1@[j1]@ == n);
                }
            }
        }
        k = k + 1;
    }
    proof {
        assert(tag_texts.take(tags@.len() as int) =~= tag_texts);
    }
}

/// Reading back after adding: the sample added under a name is the one
/// stored under it, the number of samples grows exactly when the name is new,
/// and every other name keeps its sample.
pub proof fn law_catalog_get_after_add<M>(entries: Seq<(SampleInfo, M)>, info: SampleInfo, meta: M, other: Seq<char>)
    requires
        catalog_names_distinct(entries),
        other != info.name@,
    ensures
        catalog_has(catalog_with(entries, info, meta), info.name@),
        catalog_lookup(catalog_with(entries, info, meta), info.name@) == meta,
        catalog_with(entries, info, meta).len() == entries.len() + if catalog_has(entries, info.name@) {
            0int
        } else {
            1int
        },
        catalog_has(catalog_with(entries, info, meta), other) == catalog_has(entries, other),
        catalog_has(entries, other) ==> catalog_lookup(catalog_with(entries, info, meta), other)
            == catalog_lookup(entries, other),
{
    let new = catalog_with(entries, info, meta);
    let name = info.name@;
    if catalog_has(entries, name) {
        let q = catalog_position(entries, name);
        assert(new[q].0.name@ == name);
        let p = catalog_position(new, name);
        if p != q {
            assert(new[p].0.name@ == entries[p].0.name@);
            assert(entries[p].0.name@ != entries[q].0.name@);
        }
    } else {
        let last = entries.len() as int;
        assert(new[last].0.name@ == name);
        let p = catalog_position(new, name);
        if p != last {
            assert(new[p] == entries[p]);
            assert(catalog_has(entries, name));
        }
    }
    if catalog_has(entries, other) {
        let k = catalog_position(entries, other);
        assert(new[k] == entries[k]);
        assert(catalog_has(new, other));
        let p = catalog_position(new, other);
        if p != k {
            assert(new[p].0.name@ == other);
            assert(new[p] == entries[p]);
            assert(entries[p].0.name@ != entries[k].0.name@);
        }
    }
    if catalog_has(new, other) {
        let p = catalog_position(new, other);
        if p < entries.len() {
            assert(new[p] == entries[p]);
        }
    }
}

/// Adding a sample lists its name under each of its tags, as often as the
/// tag occurs among them, and leaves the lists of other tags alone.
pub proof fn law_tags_list_name(listed: Seq<Seq<char>>, tags: Seq<Seq<char>>, tag: Seq<char>, name: Seq<char>)
    ensures
        listed_under_tags(listed, tags, tag, name).len() == listed.len() + tags.filter(|t: Seq<char>| t == tag).len(),
        listed_under_tags(listed, tags, tag, name).take(listed.len() as int) == listed,
        forall|i: int|
            listed.len() <= i < listed_under_tags(listed, tags, tag, name).len() ==> #[trigger] listed_under_tags(
                listed,
                tags,
                tag,
                name,
            )[i] == name,
    decreases tags.len(),
{
    if tags.len() == 0 {
        assert(tags.filter(|t: Seq<char>| t == tag) =~= Seq::<Seq<char>>::empty()) by {
            broadcast use vstd::seq_lib::group_filter_ensures;
        }
        assert(listed.take(listed.len() as int) =~= listed);
    } else {
        let init = tags.drop_last();
        law_tags_list_name(listed, init, tag, name);
        assert(init.push(tags.last()) =~= tags);
        init.lemma_filter_push(tags.last(), |t: Seq<char>| t == tag);
        let before = listed_under_tags(listed, init, tag, name);
        if tags.last() == tag {
            assert(before.push(name).take(listed.len() as int) =~= before.take(listed.len() as int));
        }
    }
}

/// Sample catalog: samples by name, with the names listed by category and by
/// tag in the order they were added (a name added twice is listed twice).
#[verifier::reject_recursive_types(M)]
pub struct SampleCatalog<M> {
    /// All samples with what the catalog reads of them, in the order first added
    entries: Vec<(SampleInfo, M)>,
    /// Names by category
    category_index: Vec<(SampleCategory, Vec<String>)>,
    /// Names by tag
    tag_index: Vec<(String, Vec<String>)>,
}

impl<M> SampleCatalog<M> {
    /// The stored samples, in the order their names were first added.
    pub closed spec fn entries_view(self) -> Seq<(SampleInfo, M)> {
        self.entries@
    }

    /// The names listed under `category`, in the order added.
    pub closed spec fn category_view(self, category: SampleCategory) -> Seq<Seq<char>> {
        index_names(self.category_index@, category)
    }

    /// The names listed under `tag`, in the order added.
    pub closed spec fn tag_view(self, tag: Seq<char>) -> Seq<Seq<char>> {
        tag_names(self.tag_index@, tag)
    }

    /// Names are unique, each category and tag has at most one list, lists
    /// are not empty, and every listed name is stored.
    pub closed spec fn wf(self) -> bool {
        &&& catalog_names_distinct(self.entries@)
        &&& keys_distinct(self.category_index@)
        &&& tag_keys_distinct(self.tag_index@)
        &&& lists_nonempty(self.category_index@)
        &&& lists_nonempty(self.tag_index@)
        &&& listed_names_stored(self.category_index@, self.entries@)
        &&& listed_names_stored(self.tag_index@, self.entries@)
    }

    /// An empty catalog.
    pub fn new() -> (r: Self)
        ensures
            r.wf(),
            r.entries_view() == Seq::<(SampleInfo, M)>::empty(),
            forall|c: SampleCategory| r.category_view(c) == Seq::<Seq<char>>::empty(),
            forall|t: Seq<char>| r.tag_view(t) == Seq::<Seq<char>>::empty(),
    {
        Self { entries: Vec::new(), category_index: Vec::new(), tag_index: Vec::new() }
    }

    /// Position of the sample named `name`, if any.
    fn find(&self, name: &String) -> (r: Option<usize>)
        requires
            self.wf(),
        ensures
            match r {
                Some(i) => catalog_has(self.entries_view(), name@) && i == catalog_position(
                    self.entries_view(),
                    name@,
                ) && i < self.entries_view().len(),
                None => !catalog_has(self.entries_view(), name@),
            },
    {
        let mut i: usize = 0;
        while i < self.entries.len()
            invariant
                self.wf(),
                i <= self.entries@.len(),
                forall|k: int| 0 <= k < i ==> (#[trigger] self.entries@[k]).0.name@ != name@,
            decreases self.entries.len() - i,
        {
            if self.entries[i].0.name == *name {
                assert(self.entries@[i as int].0.name@ == name@);
                let ghost p = catalog_position(self.entries@, name@);
                assert(p == i as int) by {
                    if p != i as int {
                        assert(self.entries@[p].0.name@ != self.entries@[i as int].0.name@);
                    }
                }
                return Some(i);
            }
            i = i + 1;
        }
        None
    }

    /// Add a sample under its name, replacing a stored sample of the same
    /// name, and list the name under its category and under each of its tags.
    pub fn add_sample(&mut self, info: SampleInfo, meta: M)
        requires
            old(self).wf(),
        ensures
            final(self).wf(),
            final(self).entries_view() == catalog_with(old(self).entries_view(), info, meta),
            forall|c: SampleCategory|
                #![trigger final(self).category_view(c)]
                final(self).category_view(c) == if c == info.category {
                    old(self).category_view(c).push(info.name@)
                } else {
                    old(self).category_view(c)
                },
            forall|t: Seq<char>|
                #![trigger final(self).tag_view(t)]
                final(self).tag_view(t) == listed_under_tags(old(self).tag_view(t), texts(info.tags@), t, info.name@),
    {
        let ghost old_entries = self.entries@;
        let ghost old_tags = self.tag_index@;
        let ghost gname = info.name@;
        let position = self.find(&info.name);
        index_push_category(&mut self.category_index, info.category, info.name.clone());
        index_push_tags(&mut self.tag_index, &info.tags, &info.name);
        let ghost new_entry = (info, meta);
        match position {
            Some(p) => {
                self.entries.remove(p);
                self.entries.insert(p, (info, meta));
                assert(self.entries@ =~= old_entries.update(p as int, new_entry));
            },
            None => {
                self.entries.push((info, meta));
            },
        }
        proof {
            let new_entries = self.entries@;
            assert forall|n: Seq<char>| catalog_has(old_entries, n) implies catalog_has(new_entries, n) by {
                let k = choose|k: int| 0 <= k < old_entries.len() && (#[trigger] old_entries[k]).0.name@ == n;
                assert(new_entries[k].0.name@ == n);
            }
            if catalog_has(old_entries, gname) {
                let q = catalog_position(old_entries, gname);
                assert(new_entries[q].0.name@ == gname);
                assert forall|a: int, b: int|
                    0 <= a < new_entries.len() && 0 <= b < new_entries.len() && a != b implies (
                    #[trigger] new_entries[a]).0.name@ != (#[trigger] new_entries[b]).0.name@ by {
                    assert(new_entries[a].0.name@ == old_entries[a].0.name@);
                    assert(new_entries[b].0.name@ == old_entries[b].0.name@);
                    assert(old_entries[a].0.name@ != old_entries[b].0.name@);
                }
            } else {
                assert(new_entries[old_entries.len() as int].0.name@ == gname);
                assert forall|a: int, b: int|
                    0 <= a < new_entries.len() && 0 <= b < new_entries.len() && a != b implies (
                    #[trigger] new_entries[a]).0.name@ != (#[trigger] new_entries[b]).0.name@ by {
                    if a < old_entries.len() && b < old_entries.len() {
                        assert(old_entries[a].0.name@ != old_entries[b].0.name@);
                    } else if a < old_entries.len() {
                        assert(old_entries[a].0.name@ != gname);
                    } else if b < old_entries.len() {
                        assert(old_entries[b].0.name@ != gname);
                    }
                }
            }
            assert(catalog_has(new_entries, gname));
            assert forall|a: int, b: int|
                0 <= a < self.category_index@.len() && 0 <= b < self.category_index@[a].1@.len()
                    implies catalog_has(new_entries, (#[trigger] self.category_index@[a].1@[b])@) by {
                let n = self.category_index@[a].1@[b]@;
                if n != gname {
                    let (i0, j0) = choose|i0: int, j0: int|
                        0 <= i0 < old(self).category_index@.len() && 0 <= j0 < old(
                            self,
                        ).category_index@[i0].1@.len() && (#[trigger] old(self).category_index@[i0].1@[j0])@
                            == n;
                    assert(catalog_has(old_entries, n));
                }
            }
            assert forall|a: int, b: int|
                0 <= a < self.tag_index@.len() && 0 <= b < self.tag_index@[a].1@.len() implies catalog_has(
                new_entries,
                (#[trigger] self.tag_index@[a].1@[b])@,
            ) by {
                let n = self.tag_index@[a].1@[b]@;
                if n != gname {
                    let (i0, j0) = choose|i0: int, j0: int|
                        0 <= i0 < old_tags.len() && 0 <= j0 < old_tags[i0].1@.len() && (
                        #[trigger] old_tags[i0].1@[j0])@ == n;
                    assert(catalog_has(old_entries, n));
                }
            }
        }
    }
    /// The stored sample with the given name, if any.
    pub fn get_sample(&self, name: &str) -> (r: Option<&M>)
        requires
            self.wf(),
        ensures
            match r {
                Some(m) => catalog_has(self.entries_view(), name@) && *m == catalog_lookup(
                    self.entries_view(),
                    name@,
                ),
                None => !catalog_has(self.entries_view(), name@),
            },
    {
        let key = name.to_owned();
        match self.find(&key) {
            Some(i) => Some(&self.entries[i].1),
            None => None,
        }
    }

    /// The stored samples named by `names`, in order.
    fn lookup_names(&self, names: &Vec<String>) -> (r: Vec<&M>)
        requires
            self.wf(),
            forall|j: int| 0 <= j < names@.len() ==> catalog_has(self.entries_view(), (#[trigger] names@[j])@),
        ensures
            r@.len() == names@.len(),
            forall|i: int| 0 <= i < r@.len() ==> *(#[trigger] r@[i]) == catalog_lookup(self.entries_view(), names@[i]@),
    {
        let mut out: Vec<&M> = Vec::new();
        let mut j: usize = 0;
        while j < names.len()
            invariant
                self.wf(),
                forall|k: int| 0 <= k < names@.len() ==> catalog_has(self.entries_view(), (#[trigger] names@[k])@),
                j <= names@.len(),
                out@.len() == j,
                forall|k: int| 0 <= k < j ==> *(#[trigger] out@[k]) == catalog_lookup(self.entries_view(), names@[k]@),
            decreases names.len() - j,
        {
            let name = &names[j];
            assert(catalog_has(self.entries_view(), names@[j as int]@));
            match self.find(name) {
                Some(i) => {
                    out.push(&self.entries[i].1);
                },
                None => {
                    assert(false);
                },
            }
            j = j + 1;
        }
        out
    }

    /// The samples listed under `category`, in the order they were added there.
    pub fn get_by_category(&self, category: &SampleCategory) -> (r: Vec<&M>)
        requires
            self.wf(),
        ensures
            r@.len() == self.category_view(*category).len(),
            forall|i: int|
                0 <= i < r@.len() ==> *(#[trigger] r@[i]) == catalog_lookup(
                    self.entries_view(),
                    self.category_view(*category)[i],
                ),
    {
        let mut i: usize = 0;
        while i < self.category_index.len()
            invariant
                self.wf(),
                i <= self.category_index@.len(),
                forall|k: int| 0 <= k < i ==> (#[trigger] self.category_index@[k]).0 != *category,
            decreases self.category_index.len() - i,
        {
            if self.category_index[i].0 == *category {
                proof {
                    let x = choose|x: int|
                        0 <= x < self.category_index@.len() && (#[trigger] self.category_index@[x]).0 == *category;
                    assert(self.category_index@[i as int].0 == *category);
                    if x != i as int {
                        assert(self.category_index@[x].0 != self.category_index@[i as int].0);
                    }
                }
                return self.lookup_names(&self.category_index[i].1);
            }
            i = i + 1;
        }
        Vec::new()
    }

    /// The samples listed under `tag`, in the order they were added there.
    pub fn search_by_tag(&self, tag: &str) -> (r: Vec<&M>)
        requires
            self.wf(),
        ensures
            r@.len() == self.tag_view(tag@).len(),
            forall|i: int|
                0 <= i < r@.len() ==> *(#[trigger] r@[i]) == catalog_lookup(self.entries_view(), self.tag_view(tag@)[i]),
    {
        let key = tag.to_owned();
        let mut i: usize = 0;
        while i < self.tag_index.len()
            invariant
                self.wf(),
                key@ == tag@,
                i <= self.tag_index@.len(),
                forall|k: int| 0 <= k < i ==> (#[trigger] self.tag_index@[k]).0@ != tag@,
            decreases self.tag_index.len() - i,
        {
            if self.tag_index[i].0 == key {
                proof {
                    let x = choose|x: int|
                        0 <= x < self.tag_index@.len() && (#[trigger] self.tag_index@[x]).0@ == tag@;
                    assert(self.tag_index@[i as int].0@ == tag@);
                    if x != i as int {
                        assert(self.tag_index@[x].0@ != self.tag_index@[i as int].0@);
                    }
                }
                return self.lookup_names(&self.tag_index[i].1);
            }
            i = i + 1;
        }
        Vec::new()
    }

    /// All stored samples, in the order their names were first added.
    pub fn all_samples(&self) -> (r: Vec<&M>)
        ensures
            r@.len() == self.entries_view().len(),
            forall|i: int| 0 <= i < r@.len() ==> *(#[trigger] r@[i]) == self.entries_view()[i].1,
    {
        let mut out: Vec<&M> = Vec::new();
        let mut i: usize = 0;
        while i < self.entries.len()
            invariant
                i <= self.entries@.len(),
                out@.len() == i,
                forall|k: int| 0 <= k < i ==> *(#[trigger] out@[k]) == self.entries@[k].1,
            decreases self.entries.len() - i,
        {
            out.push(&self.entries[i].1);
            i = i + 1;
        }
        out
    }

    /// Number of samples.
    pub fn count(&self) -> (r: usize)
        ensures
            r == self.entries_view().len(),
    {
        self.entries.len()
    }

    /// Each category that lists a sample, once, with how many names it lists.
    pub fn categories(&self) -> (r: Vec<(SampleCategory, usize)>)
        requires
            self.wf(),
        ensures
            forall|i: int|
                0 <= i < r@.len() ==> (#[trigger] r@[i]).1 == self.category_view(r@[i].0).len() && r@[i].1 > 0,
            forall|i: int, j: int| 0 <= i < r@.len() && 0 <= j < r@.len() && i != j ==> (#[trigger] r@[i]).0 != (#[trigger] r@[j]).0,
            forall|c: SampleCategory|
                #![trigger self.category_view(c)]
                self.category_view(c).len() > 0 ==> exists|i: int| 0 <= i < r@.len() && (#[trigger] r@[i]).0 == c,
    {
        let mut out: Vec<(SampleCategory, usize)> = Vec::new();
        let mut i: usize = 0;
        while i < self.category_index.len()
            invariant
                self.wf(),
                i <= self.category_index@.len(),
                out@.len() == i,
                forall|k: int| 0 <= k < i ==> (#[trigger] out@[k]).0 == self.category_index@[k].0 && out@[k].1 == self.category_index@[k].1@.len(),
            decreases self.category_index.len() - i,
        {
            out.push((self.category_index[i].0, self.category_index[i].1.len()));
            i = i + 1;
        }
        proof {
            let index = self.category_index@;
            assert forall|k: int| 0 <= k < out@.len() implies (#[trigger] out@[k]).1 == self.category_view(out@[k].0).len()
                && out@[k].1 > 0 by {
                let x = choose|x: int| 0 <= x < index.len() && (#[trigger] index[x]).0 == index[k].0;
                if x != k {
                    assert(index[x].0 != index[k].0);
                }
            }
            assert forall|c: SampleCategory| #[trigger] self.category_view(c).len() > 0 implies exists|i: int|
                0 <= i < out@.len() && (#[trigger] out@[i]).0 == c by {
                let x = choose|x: int| 0 <= x < index.len() && (#[trigger] index[x]).0 == c;
                assert(out@[x].0 == c);
            }
        }
        out
    }

    /// Each tag that lists a sample, once, with how many names it lists.
    pub fn tags(&self) -> (r: Vec<(String, usize)>)
        requires
            self.wf(),
        ensures
            forall|i: int|
                0 <= i < r@.len() ==> (#[trigger] r@[i]).1 == self.tag_view(r@[i].0@).len() && r@[i].1 > 0,
            forall|i: int, j: int| 0 <= i < r@.len() && 0 <= j < r@.len() && i != j ==> (#[trigger] r@[i]).0@ != (#[trigger] r@[j]).0@,
            forall|t: Seq<char>|
                #![trigger self.tag_view(t)]
                self.tag_view(t).len() > 0 ==> exists|i: int| 0 <= i < r@.len() && (#[trigger] r@[i]).0@ == t,
    {
        let mut out: Vec<(String, usize)> = Vec::new();
        let mut i: usize = 0;
        while i < self.tag_index.len()
            invariant
                self.wf(),
                i <= self.tag_index@.len(),
                out@.len() == i,
                forall|k: int| 0 <= k < i ==> (#[trigger] out@[k]).0@ == self.tag_index@[k].0@ && out@[k].1 == self.tag_index@[k].1@.len(),
            decreases self.tag_index.len() - i,
        {
            out.push((self.tag_index[i].0.clone(), self.tag_index[i].1.len()));
            i = i + 1;
        }
        proof {
            let index = self.tag_index@;
            assert forall|k: int| 0 <= k < out@.len() implies (#[trigger] out@[k]).1 == self.tag_view(out@[k].0@).len()
                && out@[k].1 > 0 by {
                let x = choose|x: int| 0 <= x < index.len() && (#[trigger] index[x]).0@ == index[k].0@;
                if x != k {
                    assert(index[x].0@ != index[k].0@);
                }
            }
            assert forall|a: int, b: int| 0 <= a < out@.len() && 0 <= b < out@.len() && a != b implies (#[trigger] out@[a]).0@ != (#[trigger] out@[b]).0@ by {
                assert(index[a].0@ != index[b].0@);
            }
            assert forall|t: Seq<char>| #[trigger] self.tag_view(t).len() > 0 implies exists|i: int|
                0 <= i < out@.len() && (#[trigger] out@[i]).0@ == t by {
                let x = choose|x: int| 0 <= x < index.len() && (#[trigger] index[x]).0@ == t;
                assert(out@[x].0@ == t);
            }
        }
        out
    }

    /// Remove all samples.
    pub fn clear(&mut self)
        ensures
            final(self).wf(),
            final(self).entries_view() == Seq::<(SampleInfo, M)>::empty(),
            forall|c: SampleCategory| final(self).category_view(c) == Seq::<Seq<char>>::empty(),
            forall|t: Seq<char>| final(self).tag_view(t) == Seq::<Seq<char>>::empty(),
    {
        self.entries.clear();
        self.category_index.clear();
        self.tag_index.clear();
    }
}

impl<M> Default for SampleCatalog<M> {
    /// The same as `new`.
    fn default() -> (r: Self)
        ensures
            r.wf(),
            r.entries_view() == Seq::<(SampleInfo, M)>::empty(),
            forall|c: SampleCategory| r.category_view(c) == Seq::<Seq<char>>::empty(),
            forall|t: Seq<char>| r.tag_view(t) == Seq::<Seq<char>>::empty(),
    {
        Self::new()
    }
}

} // verus!
