//! Sample library: a cache of loaded samples under a memory budget, evicting
//! the least recently used sample to make room, with the paths searched for
//! sample files.
//!
//! Reading sample files is done by the caller; the library decides what is
//! kept. Accesses are ordered by the library's own access clock.

use vstd::prelude::*;
use crate::patterns::io::push_char;

verus! {

/// The file `name.ext` in directory `dir`.
pub open spec fn sample_file(dir: Seq<char>, name: Seq<char>, ext: Seq<char>) -> Seq<char> {
    dir + seq!['/'] + name + seq!['.'] + ext
}

/// The files tried for sample `name`, in order: in each directory of `dirs`,
/// `name` with the extensions wav, flac and ogg.
pub open spec fn sample_file_candidates(dirs: Seq<Seq<char>>, name: Seq<char>) -> Seq<Seq<char>>
    decreases dirs.len(),
{
    if dirs.len() == 0 {
        Seq::empty()
    } else {
        let dir = dirs.last();
        sample_file_candidates(dirs.drop_last(), name) + seq![
            sample_file(dir, name, "wav"@),
            sample_file(dir, name, "flac"@),
            sample_file(dir, name, "ogg"@),
        ]
    }
}

/// Append the characters of `s`.
fn append_str(out: &mut String, s: &str)
    ensures
        final(out)@ == old(out)@ + s@,
{
    let ghost start = out@;
    for c in it: s.chars()
        invariant
            it.seq() == s@,
            out@ == start + s@.take(it.index() as int),
    {
        push_char(out, c);
        assert(out@ =~= start + s@.take(it.index() as int + 1));
    }
    assert(s@.take(s@.len() as int) =~= s@);
}

/// The path of file `name.ext` in directory `dir`.
fn sample_file_path(dir: &str, name: &str, ext: &str) -> (r: String)
    ensures
        r@ == sample_file(dir@, name@, ext@),
{
    let mut path = String::new();
    append_str(&mut path, dir);
    push_char(&mut path, '/');
    append_str(&mut path, name);
    push_char(&mut path, '.');
    append_str(&mut path, ext);
    assert(path@ =~= sample_file(dir@, name@, ext@));
    path
}

/// Memory usage statistics of a sample library.
#[derive(Debug, Clone)]
pub struct MemoryStats {
    pub current_bytes: usize,
    pub max_bytes: usize,
    pub cached_samples: usize,
}

/// Sample loading errors.
#[derive(Debug, Clone)]
pub enum SampleError {
    /// Sample file not found
    NotFound(String),
    /// Failed to load sample file
    LoadError(String),
    /// Out of memory
    OutOfMemory(usize),
    /// Invalid sample format
    InvalidFormat(String),
}

/// A cached sample with what the library tracks of it.
pub struct CachedSample<P> {
    pub name: String,
    pub data: P,
    /// Estimated memory use
    pub memory_bytes: usize,
    /// How often the sample was asked for
    pub access_count: u64,
    /// When the sample was last asked for, on the library's access clock
    pub last_access: u64,
}

/// Memory used by the cached samples together.
pub open spec fn total_bytes<P>(s: Seq<CachedSample<P>>) -> nat
    decreases s.len(),
{
    if s.len() == 0 {
        0
    } else {
        (total_bytes(s.drop_last()) + s.last().memory_bytes) as nat
    }
}

/// Position of the least recently used sample (the first of equals).
pub open spec fn lru_index<P>(s: Seq<CachedSample<P>>) -> int
    decreases s.len(),
{
    if s.len() <= 1 {
        0
    } else {
        let i = lru_index(s.drop_last());
        if s.last().last_access < s[i].last_access {
            s.len() - 1
        } else {
            i
        }
    }
}

/// The cache after evicting least recently used samples until `needed` more
/// bytes fit within `max`, or until it is empty.
pub open spec fn evicted<P>(s: Seq<CachedSample<P>>, needed: nat, max: nat) -> Seq<CachedSample<P>>
    decreases s.len(),
{
    if total_bytes(s) + needed <= max || s.len() == 0 {
        s
    } else {
        proof {
            lemma_lru_bounds(s);
        }
        evicted(s.remove(lru_index(s)), needed, max)
    }
}

/// Some cached sample is named `name`.
pub open spec fn has_sample<P>(s: Seq<CachedSample<P>>, name: Seq<char>) -> bool {
    exists|i: int| 0 <= i < s.len() && (#[trigger] s[i]).name@ == name
}

/// Position of the sample named `name` (meaningful when there is one).
pub open spec fn sample_position<P>(s: Seq<CachedSample<P>>, name: Seq<char>) -> int {
    choose|i: int| 0 <= i < s.len() && (#[trigger] s[i]).name@ == name
}

/// No two cached samples share a name.
pub open spec fn sample_names_distinct<P>(s: Seq<CachedSample<P>>) -> bool {
    forall|i: int, j: int|
        0 <= i < s.len() && 0 <= j < s.len() && i != j ==> (#[trigger] s[i]).name@ != (#[trigger] s[j]).name@
}

/// The least recently used sample is in the cache and no sample was used
/// longer ago.
pub proof fn lemma_lru_bounds<P>(s: Seq<CachedSample<P>>)
    ensures
        s.len() > 0 ==> 0 <= lru_index(s) < s.len(),
        forall|k: int| 0 <= k < s.len() ==> s[lru_index(s)].last_access <= #[trigger] s[k].last_access,
    decreases s.len(),
{
    if s.len() > 1 {
        let t = s.drop_last();
        lemma_lru_bounds(t);
        assert forall|k: int| 0 <= k < s.len() implies s[lru_index(s)].last_access <= #[trigger] s[k].last_access by {
            if k < s.len() - 1 {
                assert(s[k] == t[k]);
            }
        }
    }
}

proof fn lemma_total_push<P>(s: Seq<CachedSample<P>>, x: CachedSample<P>)
    ensures
        total_bytes(s.push(x)) == total_bytes(s) + x.memory_bytes,
{
    assert(s.push(x).drop_last() =~= s);
}

proof fn lemma_total_remove<P>(s: Seq<CachedSample<P>>, i: int)
    requires
        0 <= i < s.len(),
    ensures
        total_bytes(s.remove(i)) + s[i].memory_bytes == total_bytes(s),
    decreases s.len(),
{
    if i == s.len() - 1 {
        assert(s.remove(i) =~= s.drop_last());
    } else {
        let t = s.drop_last();
        lemma_total_remove(t, i);
        assert(s.remove(i) =~= t.remove(i).push(s.last()));
        lemma_total_push(t.remove(i), s.last());
    }
}

proof fn lemma_total_update<P>(s: Seq<CachedSample<P>>, i: int, x: CachedSample<P>)
    requires
        0 <= i < s.len(),
        x.memory_bytes == s[i].memory_bytes,
    ensures
        total_bytes(s.update(i, x)) == total_bytes(s),
    decreases s.len(),
{
    if i == s.len() - 1 {
        assert(s.update(i, x).drop_last() =~= s.drop_last());
    } else {
        let t = s.drop_last();
        lemma_total_update(t, i, x);
        assert(s.update(i, x).drop_last() =~= t.update(i, x));
    }
}

/// A library of cached samples.
#[verifier::reject_recursive_types(P)]
pub struct SampleLibrary<P> {
    cache: Vec<CachedSample<P>>,
    /// Memory budget in bytes (0 = unlimited)
    max_memory_bytes: usize,
    current_memory_bytes: usize,
    search_paths: Vec<String>,
    /// The access clock: the next access is recorded at this time
    clock: u64,
}

impl<P> SampleLibrary<P> {
    /// The cached samples, in the order they were stored.
    pub closed spec fn cache_view(&self) -> Seq<CachedSample<P>> {
        self.cache@
    }

    /// The memory budget in bytes (0 = unlimited).
    pub closed spec fn max_view(&self) -> usize {
        self.max_memory_bytes
    }

    /// The memory the cached samples use.
    pub closed spec fn current_view(&self) -> usize {
        self.current_memory_bytes
    }

    /// The directories searched for sample files, in order.
    pub closed spec fn search_paths_view(&self) -> Seq<Seq<char>> {
        self.search_paths@.map_values(|p: String| p@)
    }

    /// The time of the next access.
    pub closed spec fn clock_view(&self) -> u64 {
        self.clock
    }

    /// Names are unique, the memory count is the sum of the samples', and
    /// every recorded access is before the clock.
    pub closed spec fn wf(&self) -> bool {
        &&& sample_names_distinct(self.cache@)
        &&& self.current_memory_bytes == total_bytes(self.cache@)
        &&& forall|i: int| 0 <= i < self.cache@.len() ==> (#[trigger] self.cache@[i]).last_access <= self.clock
    }

    /// An empty library without memory limit, searching `samples/`,
    /// `assets/samples/` and `./`.
    pub fn new() -> (r: Self)
        ensures
            r.wf(),
            r.cache_view() == Seq::<CachedSample<P>>::empty(),
            r.max_view() == 0,
            r.current_view() == 0,
            r.search_paths_view() == seq!["samples/"@, "assets/samples/"@, "./"@],
    {
        let mut search_paths: Vec<String> = Vec::new();
        search_paths.push(String::from_str("samples/"));
        search_paths.push(String::from_str("assets/samples/"));
        search_paths.push(String::from_str("./"));
        let r = SampleLibrary {
            cache: Vec::new(),
            max_memory_bytes: 0,
            current_memory_bytes: 0,
            search_paths,
            clock: 0,
        };
        assert(r.search_paths@.map_values(|p: String| p@) =~= seq!["samples/"@, "assets/samples/"@, "./"@]);
        r
    }

    /// An empty library with a budget of `max_memory_mb` megabytes.
    pub fn with_memory_limit(max_memory_mb: usize) -> (r: Self)
        requires
            max_memory_mb * 1024 * 1024 <= usize::MAX,
        ensures
            r.wf(),
            r.cache_view() == Seq::<CachedSample<P>>::empty(),
            r.max_view() == max_memory_mb * 1024 * 1024,
            r.current_view() == 0,
            r.search_paths_view() == seq!["samples/"@, "assets/samples/"@, "./"@],
    {
        let mut library = Self::new();
        library.max_memory_bytes = max_memory_mb * 1024 * 1024;
        library
    }

    /// Search `path` too, after the others.
    pub fn add_search_path(&mut self, path: String)
        ensures
            final(self).search_paths_view() == old(self).search_paths_view().push(path@),
            final(self).cache_view() == old(self).cache_view(),
            final(self).max_view() == old(self).max_view(),
            final(self).current_view() == old(self).current_view(),
            final(self).clock_view() == old(self).clock_view(),
            old(self).wf() ==> final(self).wf(),
    {
        let ghost before = self.search_paths@;
        self.search_paths.push(path);
        assert(self.search_paths@.map_values(|p: String| p@) =~= before.map_values(|p: String| p@).push(path@));
    }

    /// The directories searched for sample files, in order.
    pub fn search_paths(&self) -> (r: &Vec<String>)
        ensures
            r@.map_values(|p: String| p@) == self.search_paths_view(),
    {
        &self.search_paths
    }

    /// The files tried for sample `name`, in order: `name.wav`, `name.flac`
    /// and `name.ogg` in each search path.
    pub fn candidate_files(&self, name: &str) -> (r: Vec<String>)
        ensures
            r@.map_values(|p: String| p@) == sample_file_candidates(self.search_paths_view(), name@),
    {
        let mut out: Vec<String> = Vec::new();
        let n = self.search_paths.len();
        let mut k: usize = 0;
        assert(self.search_paths_view().take(0) =~= Seq::<Seq<char>>::empty());
        assert(out@.map_values(|p: String| p@) =~= Seq::<Seq<char>>::empty());
        while k < n
            invariant
                n == self.search_paths@.len(),
                k <= n,
                out@.map_values(|p: String| p@) == sample_file_candidates(
                    self.search_paths_view().take(k as int),
                    name@,
                ),
            decreases n - k,
        {
            let ghost before = out@;
            let dir = self.search_paths[k].as_str();
            out.push(sample_file_path(dir, name, "wav"));
            out.push(sample_file_path(dir, name, "flac"));
            out.push(sample_file_path(dir, name, "ogg"));
            proof {
                let dirs = self.search_paths_view().take(k + 1);
                assert(dirs.drop_last() =~= self.search_paths_view().take(k as int));
                assert(dirs.last() == self.search_paths@[k as int]@);
                assert(out@.map_values(|p: String| p@) =~= before.map_values(|p: String| p@) + seq![
                    sample_file(dirs.last(), name@, "wav"@),
                    sample_file(dirs.last(), name@, "flac"@),
                    sample_file(dirs.last(), name@, "ogg"@),
                ]);
            }
            k = k + 1;
        }
        assert(self.search_paths_view().take(n as int) =~= self.search_paths_view());
        out
    }

    /// Whether a sample of that name is cached.
    pub fn is_loaded(&self, name: &str) -> (r: bool)
        requires
            self.wf(),
        ensures
            r == has_sample(self.cache_view(), name@),
    {
        let key = name.to_owned();
        self.find(&key).is_some()
    }

    fn find(&self, name: &String) -> (r: Option<usize>)
        requires
            self.wf(),
        ensures
            match r {
                Some(i) => i < self.cache_view().len() && has_sample(self.cache_view(), name@) && i
                    == sample_position(self.cache_view(), name@),
                None => !has_sample(self.cache_view(), name@),
            },
    {
        let mut i: usize = 0;
        while i < self.cache.len()
            invariant
                self.wf(),
                i <= self.cache@.len(),
                forall|k: int| 0 <= k < i ==> (#[trigger] self.cache@[k]).name@ != name@,
            decreases self.cache.len() - i,
        {
            if self.cache[i].name == *name {
                proof {
                    assert(self.cache@[i as int].name@ == name@);
                    let p = sample_position(self.cache@, name@);
                    if p != i as int {
                        assert(self.cache@[p].name@ != self.cache@[i as int].name@);
                    }
                }
                return Some(i);
            }
            i = i + 1;
        }
        None
    }

    /// The cached sample of that name, if any.
    pub fn get_sample(&self, name: &str) -> (r: Option<&P>)
        requires
            self.wf(),
        ensures
            match r {
                Some(p) => has_sample(self.cache_view(), name@) && *p == self.cache_view()[sample_position(
                    self.cache_view(),
                    name@,
                )].data,
                None => !has_sample(self.cache_view(), name@),
            },
    {
        let key = name.to_owned();
        match self.find(&key) {
            Some(i) => Some(&self.cache[i].data),
            None => None,
        }
    }

    /// Record an access to the sample of that name, if cached: one more
    /// access, at the current time of the access clock, which moves on.
    pub fn record_access(&mut self, name: &str) -> (r: bool)
        requires
            old(self).wf(),
        ensures
            final(self).wf(),
            r == has_sample(old(self).cache_view(), name@),
            r ==> ({
                let i = sample_position(old(self).cache_view(), name@);
                let e = old(self).cache_view()[i];
                &&& final(self).cache_view() == old(self).cache_view().update(
                    i,
                    CachedSample {
                        name: e.name,
                        data: e.data,
                        memory_bytes: e.memory_bytes,
                        access_count: e.access_count.saturating_add(1),
                        last_access: old(self).clock_view(),
                    },
                )
                &&& final(self).clock_view() == old(self).clock_view().saturating_add(1)
            }),
            !r ==> final(self).cache_view() == old(self).cache_view() && final(self).clock_view()
                == old(self).clock_view(),
            final(self).max_view() == old(self).max_view(),
            final(self).current_view() == old(self).current_view(),
            final(self).search_paths_view() == old(self).search_paths_view(),
    {
        let key = name.to_owned();
        match self.find(&key) {
            Some(i) => {
                let ghost before = self.cache@;
                let entry = self.cache.remove(i);
                let now = self.clock;
                let updated = CachedSample {
                    name: entry.name,
                    data: entry.data,
                    memory_bytes: entry.memory_bytes,
                    access_count: entry.access_count.saturating_add(1),
                    last_access: now,
                };
                self.cache.insert(i, updated);
                self.clock = self.clock.saturating_add(1);
                proof {
                    assert(self.cache@ =~= before.update(i as int, updated));
                    lemma_total_update(before, i as int, updated);
                    assert forall|a: int, b: int|
                        0 <= a < self.cache@.len() && 0 <= b < self.cache@.len() && a != b implies (
                        #[trigger] self.cache@[a]).name@ != (#[trigger] self.cache@[b]).name@ by {
                        assert(self.cache@[a].name@ == before[a].name@);
                        assert(self.cache@[b].name@ == before[b].name@);
                    }
                    assert forall|k: int| 0 <= k < self.cache@.len() implies (#[trigger] self.cache@[k]).last_access
                        <= self.clock by {
                        if k != i as int {
                            assert(self.cache@[k] == before[k]);
                        }
                    }
                }
                true
            },
            None => false,
        }
    }

    /// Evict the least recently used sample, if any is cached.
    fn evict_lru_sample(&mut self) -> (r: bool)
        requires
            old(self).wf(),
        ensures
            final(self).wf(),
            r == (old(self).cache_view().len() > 0),
            r ==> final(self).cache_view() == old(self).cache_view().remove(lru_index(old(self).cache_view())),
            !r ==> final(self).cache_view() == old(self).cache_view(),
            final(self).max_view() == old(self).max_view(),
            final(self).clock_view() == old(self).clock_view(),
            final(self).search_paths_view() == old(self).search_paths_view(),
    {
        if self.cache.len() == 0 {
            return false;
        }
        let mut best: usize = 0;
        let mut i: usize = 1;
        while i < self.cache.len()
            invariant
                1 <= i <= self.cache@.len(),
                best == lru_index(self.cache@.subrange(0, i as int)),
            decreases self.cache.len() - i,
        {
            proof {
                let t = self.cache@.subrange(0, i as int + 1);
                assert(t.drop_last() =~= self.cache@.subrange(0, i as int));
                lemma_lru_bounds(self.cache@.subrange(0, i as int));
            }
            if self.cache[i].last_access < self.cache[best].last_access {
                best = i;
            }
            i = i + 1;
        }
        proof {
            assert(self.cache@.subrange(0, i as int) =~= self.cache@);
            lemma_lru_bounds(self.cache@);
            lemma_total_remove(self.cache@, best as int);
        }
        let ghost before = self.cache@;
        let removed = self.cache.remove(best);
        self.current_memory_bytes = self.current_memory_bytes - removed.memory_bytes;
        proof {
            assert forall|a: int, b: int|
                0 <= a < self.cache@.len() && 0 <= b < self.cache@.len() && a != b implies (
                #[trigger] self.cache@[a]).name@ != (#[trigger] self.cache@[b]).name@ by {
                let oa = if a < best { a } else { a + 1 };
                let ob = if b < best { b } else { b + 1 };
                assert(self.cache@[a] == before[oa]);
                assert(self.cache@[b] == before[ob]);
            }
            assert forall|k: int| 0 <= k < self.cache@.len() implies (#[trigger] self.cache@[k]).last_access
                <= self.clock by {
                let ok = if k < best { k } else { k + 1 };
                assert(self.cache@[k] == before[ok]);
            }
        }
        true
    }

    /// Store a sample that is not cached yet, first evicting least recently
    /// used samples while the budget (if any) has no room for it. Fails,
    /// with the cache emptied, when the sample alone exceeds the budget.
    /// The new sample counts one access, at the current time of the access
    /// clock, which moves on.
    pub fn store_sample(&mut self, name: &str, data: P, memory_bytes: usize) -> (r: Result<(), SampleError>)
        requires
            old(self).wf(),
            !has_sample(old(self).cache_view(), name@),
            old(self).max_view() == 0 ==> old(self).current_view() + memory_bytes <= usize::MAX,
        ensures
            final(self).wf(),
            final(self).max_view() == old(self).max_view(),
            final(self).search_paths_view() == old(self).search_paths_view(),
            final(self).current_view() == total_bytes(final(self).cache_view()),
            old(self).max_view() != 0 && r is Ok ==> final(self).current_view() <= final(self).max_view(),
            r is Ok ==> has_sample(final(self).cache_view(), name@) && final(self).cache_view()[sample_position(
                final(self).cache_view(),
                name@,
            )].data == data,
            ({
                let kept = if old(self).max_view() == 0 {
                    old(self).cache_view()
                } else {
                    evicted(old(self).cache_view(), memory_bytes as nat, old(self).max_view() as nat)
                };
                let fits = old(self).max_view() == 0 || total_bytes(kept) + memory_bytes <= old(self).max_view();
                &&& r is Ok <==> fits
                &&& fits ==> {
                    let c = final(self).cache_view();
                    &&& c.len() == kept.len() + 1
                    &&& c.drop_last() == kept
                    &&& c.last().name@ == name@
                    &&& c.last().data == data
                    &&& c.last().memory_bytes == memory_bytes
                    &&& c.last().access_count == 1
                    &&& c.last().last_access == old(self).clock_view()
                    &&& final(self).clock_view() == old(self).clock_view().saturating_add(1)
                }
                &&& !fits ==> r == Err::<(), SampleError>(SampleError::OutOfMemory(memory_bytes))
                    && final(self).cache_view() == kept && kept.len() == 0
                    && final(self).clock_view() == old(self).clock_view()
            }),
    {
        let ghost kept = if self.max_memory_bytes == 0 {
            self.cache@
        } else {
            evicted(self.cache@, memory_bytes as nat, self.max_memory_bytes as nat)
        };
        if self.max_memory_bytes != 0 {
            while memory_bytes > self.max_memory_bytes || self.current_memory_bytes > self.max_memory_bytes
                - memory_bytes
                invariant
                    self.wf(),
                    self.max_memory_bytes != 0,
                    self.max_memory_bytes == old(self).max_view(),
                    self.clock == old(self).clock_view(),
                    self.search_paths_view() == old(self).search_paths_view(),
                    evicted(self.cache@, memory_bytes as nat, self.max_memory_bytes as nat) == kept,
                    kept == evicted(old(self).cache_view(), memory_bytes as nat, old(self).max_view() as nat),
                    !has_sample(self.cache@, name@),
                decreases self.cache@.len(),
            {
                let ghost before = self.cache@;
                if !self.evict_lru_sample() {
                    proof {
                        assert(self.cache@ == before);
                        assert(evicted(before, memory_bytes as nat, self.max_memory_bytes as nat) == before);
                    }
                    return Err(SampleError::OutOfMemory(memory_bytes));
                }
                proof {
                    let idx = lru_index(before);
                    lemma_lru_bounds(before);
                    assert forall|k: int| 0 <= k < self.cache@.len() implies (#[trigger] self.cache@[k]).name@
                        != name@ by {
                        let ok = if k < idx { k } else { k + 1 };
                        assert(self.cache@[k] == before[ok]);
                    }
                }
            }
        }
        let ghost before = self.cache@;
        let entry = CachedSample {
            name: name.to_owned(),
            data,
            memory_bytes,
            access_count: 1,
            last_access: self.clock,
        };
        proof {
            lemma_total_push(before, entry);
        }
        self.current_memory_bytes = self.current_memory_bytes + memory_bytes;
        self.cache.push(entry);
        self.clock = self.clock.saturating_add(1);
        proof {
            assert forall|a: int, b: int|
                0 <= a < self.cache@.len() && 0 <= b < self.cache@.len() && a != b implies (
                #[trigger] self.cache@[a]).name@ != (#[trigger] self.cache@[b]).name@ by {
                if a < before.len() {
                    assert(self.cache@[a] == before[a]);
                }
                if b < before.len() {
                    assert(self.cache@[b] == before[b]);
                }
            }
            assert forall|k: int| 0 <= k < self.cache@.len() implies (#[trigger] self.cache@[k]).last_access
                <= self.clock by {
                if k < before.len() {
                    assert(self.cache@[k] == before[k]);
                }
            }
            let last = before.len() as int;
            assert(self.cache@[last].name@ == name@);
            let p = sample_position(self.cache@, name@);
            if p != last {
                assert(self.cache@[p].name@ != self.cache@[last].name@);
            }
        }
        Ok(())
    }

    /// Memory statistics: bytes in use, budget, and number of cached samples.
    pub fn memory_stats(&self) -> (r: MemoryStats)
        ensures
            r.current_bytes == self.current_view(),
            r.max_bytes == self.max_view(),
            r.cached_samples == self.cache_view().len(),
    {
        MemoryStats {
            current_bytes: self.current_memory_bytes,
            max_bytes: self.max_memory_bytes,
            cached_samples: self.cache.len(),
        }
    }

    /// Drop every cached sample.
    pub fn clear_cache(&mut self)
        ensures
            final(self).wf(),
            final(self).cache_view() == Seq::<CachedSample<P>>::empty(),
            final(self).current_view() == 0,
            final(self).max_view() == old(self).max_view(),
            final(self).search_paths_view() == old(self).search_paths_view(),
            final(self).clock_view() == old(self).clock_view(),
    {
        self.cache.clear();
        self.current_memory_bytes = 0;
    }
}

impl<P> Default for SampleLibrary<P> {
    /// The same as `new`.
    fn default() -> (r: Self)
        ensures
            r.wf(),
            r.cache_view() == Seq::<CachedSample<P>>::empty(),
            r.max_view() == 0,
            r.current_view() == 0,
            r.search_paths_view() == seq!["samples/"@, "assets/samples/"@, "./"@],
    {
        Self::new()
    }
}

} // verus!
