//! The playlist: a virtual-time scheduler in which each photo waits a random,
//! weight-dependent gap before it is shown again.
//!
//! The photo with the smallest scheduling key (ties: earliest scheduled) is
//! shown next; after being shown it is rescheduled at the virtual clock plus a
//! fresh gap, and never straight back to the front while other photos wait.
//! Removed photos are tombstoned by a per-path generation number and skipped
//! lazily. Gaps come from a `GapSampler`, which owns the randomness and the
//! weighting by age; keys and gaps are virtual-time ticks.
use vstd::prelude::*;
use crate::events::{CreatedSource, PhotoInfo};
use crate::text::str_equal;

verus! {

/// Draws the scheduling gap for a photo created at `created_at`.
pub trait GapSampler {
    fn sample_gap(&self, created_at: u64) -> u64;
}

/// `gap` is what the sampler `s` returned when asked about a photo created
/// at `created_at`.
pub open spec fn drawn<S: GapSampler>(s: S, created_at: u64, gap: u64) -> bool {
    call_ensures(S::sample_gap, (&s, created_at), gap)
}

/// `a + b`, or `u64::MAX` where that overflows.
pub open spec fn sat_add(a: u64, b: u64) -> u64 {
    if a + b > u64::MAX {
        u64::MAX
    } else {
        (a + b) as u64
    }
}

/// A scheduled showing of a photo.
#[derive(Debug, Clone)]
pub struct Entry {
    pub key: u64,
    pub seq: u64,
    pub generation: u64,
    pub path: String,
}

/// What the scheduler knows of a photo in the inventory.
#[derive(Debug, Clone, Copy)]
pub struct Meta {
    pub created_at: u64,
    pub created_source: CreatedSource,
    pub generation: u64,
    pub shown: bool,
}

#[derive(Debug, Clone)]
pub struct KnownPhoto {
    pub path: String,
    pub meta: Meta,
}

#[derive(Debug, Clone)]
pub struct PathGeneration {
    pub path: String,
    pub generation: u64,
}

/// Index of the first element at or after `from` whose path is `p`, or the length.
pub open spec fn find_known(known: Seq<KnownPhoto>, p: Seq<char>, from: int) -> int
    decreases known.len() - from,
{
    if from >= known.len() {
        known.len() as int
    } else if known[from].path@ == p {
        from
    } else {
        find_known(known, p, from + 1)
    }
}

pub open spec fn find_gen(gens: Seq<PathGeneration>, p: Seq<char>, from: int) -> int
    decreases gens.len() - from,
{
    if from >= gens.len() {
        gens.len() as int
    } else if gens[from].path@ == p {
        from
    } else {
        find_gen(gens, p, from + 1)
    }
}

/// Whether `p` is in the inventory.
pub open spec fn is_known(known: Seq<KnownPhoto>, p: Seq<char>) -> bool {
    find_known(known, p, 0) < known.len()
}

/// The inventory record of a known path.
pub open spec fn meta_of(known: Seq<KnownPhoto>, p: Seq<char>) -> Meta {
    known[find_known(known, p, 0)].meta
}

/// An entry is live when its photo is known with the entry's generation.
pub open spec fn live(known: Seq<KnownPhoto>, e: Entry) -> bool {
    is_known(known, e.path@) && meta_of(known, e.path@).generation == e.generation
}

/// Entry `a` comes before entry `b`: smaller key, then smaller sequence number.
pub open spec fn before(a: Entry, b: Entry) -> bool {
    a.key < b.key || (a.key == b.key && a.seq < b.seq)
}

/// Entry `i` is the front of the queue.
pub open spec fn is_front(entries: Seq<Entry>, i: int) -> bool {
    &&& 0 <= i < entries.len()
    &&& forall|j: int| 0 <= j < entries.len() && j != i ==> before(entries[i], #[trigger] entries[j])
}

pub struct PlaylistState<S: GapSampler> {
    entries: Vec<Entry>,
    known: Vec<KnownPhoto>,
    generations: Vec<PathGeneration>,
    vclock: u64,
    seq: u64,
    sampler: S,
}

/// Abstract state of a `PlaylistState`.
pub struct PlaylistModel {
    pub entries: Seq<Entry>,
    pub known: Seq<KnownPhoto>,
    pub generations: Seq<PathGeneration>,
    pub vclock: u64,
    pub seq: u64,
}

/// The scheduler's invariant.
pub open spec fn playlist_wf(m: PlaylistModel) -> bool {
    // Inventory paths are distinct, and each is tracked with its generation.
    &&& forall|i: int, j: int|
        0 <= i < j < m.known.len() ==> #[trigger] m.known[i].path@ != #[trigger] m.known[j].path@
    &&& forall|i: int, j: int|
        0 <= i < j < m.generations.len() ==> #[trigger] m.generations[i].path@
            != #[trigger] m.generations[j].path@
    &&& forall|i: int|
        0 <= i < m.known.len() ==> {
            let g = find_gen(m.generations, #[trigger] m.known[i].path@, 0);
            &&& g < m.generations.len()
            &&& m.generations[g].generation == m.known[i].meta.generation
        }
    // Entries carry distinct sequence numbers, all already issued, and no
    // generation newer than their path's.
    &&& forall|i: int, j: int|
        0 <= i < j < m.entries.len() ==> #[trigger] m.entries[i].seq != #[trigger] m.entries[j].seq
    &&& forall|i: int| 0 <= i < m.entries.len() ==> #[trigger] m.entries[i].seq < m.seq
    &&& forall|i: int|
        0 <= i < m.entries.len() ==> {
            let g = find_gen(m.generations, #[trigger] m.entries[i].path@, 0);
            &&& g < m.generations.len()
            &&& m.entries[i].generation <= m.generations[g].generation
            &&& m.entries[i].generation == m.generations[g].generation ==> is_known(m.known, m.entries[i].path@)
        }
    // Every known photo is scheduled by exactly one live entry.
    &&& forall|i: int|
        0 <= i < m.known.len() ==> exists|j: int|
            0 <= j < m.entries.len() && #[trigger] m.entries[j].path@ == #[trigger] m.known[i].path@
                && m.entries[j].generation == m.known[i].meta.generation
    &&& forall|i: int, j: int|
        0 <= i < j < m.entries.len() && live(m.known, #[trigger] m.entries[i]) && live(
            m.known,
            #[trigger] m.entries[j],
        ) ==> m.entries[i].path@ != m.entries[j].path@
}

impl<S: GapSampler> PlaylistState<S> {
    /// The sampler the gaps are drawn from.
    pub closed spec fn sampler_spec(&self) -> S {
        self.sampler
    }
}

impl<S: GapSampler> View for PlaylistState<S> {
    type V = PlaylistModel;

    closed spec fn view(&self) -> PlaylistModel {
        PlaylistModel {
            entries: self.entries@,
            known: self.known@,
            generations: self.generations@,
            vclock: self.vclock,
            seq: self.seq,
        }
    }
}


proof fn lemma_find_known(known: Seq<KnownPhoto>, p: Seq<char>, from: int)
    requires
        0 <= from <= known.len(),
    ensures
        from <= find_known(known, p, from) <= known.len(),
        find_known(known, p, from) < known.len() ==> known[find_known(known, p, from)].path@ == p,
        forall|j: int| from <= j < find_known(known, p, from) ==> known[j].path@ != p,
    decreases known.len() - from,
{
    if from < known.len() && known[from].path@ != p {
        lemma_find_known(known, p, from + 1);
    }
}

proof fn lemma_find_gen(gens: Seq<PathGeneration>, p: Seq<char>, from: int)
    requires
        0 <= from <= gens.len(),
    ensures
        from <= find_gen(gens, p, from) <= gens.len(),
        find_gen(gens, p, from) < gens.len() ==> gens[find_gen(gens, p, from)].path@ == p,
        forall|j: int| from <= j < find_gen(gens, p, from) ==> gens[j].path@ != p,
    decreases gens.len() - from,
{
    if from < gens.len() && gens[from].path@ != p {
        lemma_find_gen(gens, p, from + 1);
    }
}

/// In a sequence of distinct paths, the search finds exactly the index holding `p`.
proof fn lemma_find_known_index(known: Seq<KnownPhoto>, p: Seq<char>)
    requires
        forall|i: int, j: int|
            0 <= i < j < known.len() ==> #[trigger] known[i].path@ != #[trigger] known[j].path@,
    ensures
        forall|i: int| 0 <= i < known.len() && known[i].path@ == p ==> find_known(known, p, 0) == i,
        find_known(known, p, 0) == known.len() <==> forall|i: int|
            0 <= i < known.len() ==> known[i].path@ != p,
{
    lemma_find_known(known, p, 0);
    assert forall|i: int| 0 <= i < known.len() && known[i].path@ == p implies find_known(known, p, 0) == i by {
        let f = find_known(known, p, 0);
        if f < i {
            assert(known[f].path@ == known[i].path@);
        }
    }
}

proof fn lemma_find_gen_index(gens: Seq<PathGeneration>, p: Seq<char>)
    requires
        forall|i: int, j: int|
            0 <= i < j < gens.len() ==> #[trigger] gens[i].path@ != #[trigger] gens[j].path@,
    ensures
        forall|i: int| 0 <= i < gens.len() && gens[i].path@ == p ==> find_gen(gens, p, 0) == i,
        find_gen(gens, p, 0) == gens.len() <==> forall|i: int|
            0 <= i < gens.len() ==> gens[i].path@ != p,
{
    lemma_find_gen(gens, p, 0);
    assert forall|i: int| 0 <= i < gens.len() && gens[i].path@ == p implies find_gen(gens, p, 0) == i by {
        let f = find_gen(gens, p, 0);
        if f < i {
            assert(gens[f].path@ == gens[i].path@);
        }
    }
}

impl<S: GapSampler> PlaylistState<S> {
    pub fn with_sampler(sampler: S) -> (s: Self)
        ensures
            s.sampler_spec() == sampler,
            playlist_wf(s@),
            s@.entries.len() == 0,
            s@.known.len() == 0,
            s@.generations.len() == 0,
            s@.vclock == 0,
            s@.seq == 0,
    {
        PlaylistState {
            entries: Vec::new(),
            known: Vec::new(),
            generations: Vec::new(),
            vclock: 0,
            seq: 0,
            sampler,
        }
    }

    fn known_index(&self, path: &str) -> (r: usize)
        ensures
            r == find_known(self@.known, path@, 0),
    {
        let mut i: usize = 0;
        while i < self.known.len()
            invariant
                0 <= i <= self.known@.len(),
                find_known(self.known@, path@, i as int) == find_known(self.known@, path@, 0),
            decreases self.known.len() - i,
        {
            if str_equal(self.known[i].path.as_str(), path) {
                return i;
            }
            i = i + 1;
        }
        i
    }

    fn gen_index(&self, path: &str) -> (r: usize)
        ensures
            r == find_gen(self@.generations, path@, 0),
    {
        let mut i: usize = 0;
        while i < self.generations.len()
            invariant
                0 <= i <= self.generations@.len(),
                find_gen(self.generations@, path@, i as int) == find_gen(self.generations@, path@, 0),
            decreases self.generations.len() - i,
        {
            if str_equal(self.generations[i].path.as_str(), path) {
                return i;
            }
            i = i + 1;
        }
        i
    }

    /// Index of the front entry, if any.
    fn front_index(&self) -> (r: Option<usize>)
        requires
            forall|i: int, j: int|
                0 <= i < j < self@.entries.len() ==> #[trigger] self@.entries[i].seq
                    != #[trigger] self@.entries[j].seq,
        ensures
            r matches Some(i) ==> is_front(self@.entries, i as int),
            r is None <==> self@.entries.len() == 0,
    {
        if self.entries.len() == 0 {
            return None;
        }
        let mut best: usize = 0;
        let mut i: usize = 1;
        while i < self.entries.len()
            invariant
                1 <= i <= self@.entries.len(),
                best < i,
                forall|a: int, b: int|
                    0 <= a < b < self@.entries.len() ==> #[trigger] self@.entries[a].seq
                        != #[trigger] self@.entries[b].seq,
                forall|j: int| 0 <= j < i && j != best ==> before(self@.entries[best as int], #[trigger] self@.entries[j]),
            decreases self.entries.len() - i,
        {
            let a = &self.entries[i];
            let b = &self.entries[best];
            if a.key < b.key || (a.key == b.key && a.seq < b.seq) {
                best = i;
            }
            i = i + 1;
        }
        Some(best)
    }
}

/// Generation that a path gets when it is (re-)added: its tracked one, or zero.
pub open spec fn generation_for(gens: Seq<PathGeneration>, p: Seq<char>) -> u64 {
    let g = find_gen(gens, p, 0);
    if g < gens.len() {
        gens[g].generation
    } else {
        0
    }
}

impl<S: GapSampler> PlaylistState<S> {
    /// Adds a photo to the inventory and schedules it; a photo already known
    /// only gets its creation time and source refreshed.
    pub fn record_add(&mut self, info: PhotoInfo)
        requires
            playlist_wf(old(self)@),
            old(self)@.seq < u64::MAX,
        ensures
            playlist_wf(final(self)@),
            final(self).sampler_spec() == old(self).sampler_spec(),
            final(self)@.vclock == old(self)@.vclock,
            is_known(final(self)@.known, info.path@),
            forall|q: Seq<char>| is_known(old(self)@.known, q) ==> is_known(final(self)@.known, q),
            forall|q: Seq<char>| is_known(final(self)@.known, q) ==> is_known(old(self)@.known, q) || q == info.path@,
            forall|q: Seq<char>| #![auto] q != info.path@ && is_known(old(self)@.known, q) ==> meta_of(final(self)@.known, q) == meta_of(old(self)@.known, q),
            is_known(old(self)@.known, info.path@) ==> {
                &&& final(self)@.entries == old(self)@.entries
                &&& final(self)@.seq == old(self)@.seq
                &&& final(self)@.known.len() == old(self)@.known.len()
                &&& meta_of(final(self)@.known, info.path@) == Meta {
                    created_at: info.created_at,
                    created_source: info.created_source,
                    ..meta_of(old(self)@.known, info.path@)
                }
            },
            !is_known(old(self)@.known, info.path@) ==> {
                let e = final(self)@.entries.last();
                &&& final(self)@.entries.len() == old(self)@.entries.len() + 1
                &&& final(self)@.entries.drop_last() == old(self)@.entries
                &&& e.path@ == info.path@
                &&& e.seq == old(self)@.seq
                &&& e.key >= old(self)@.vclock
                &&& exists|g: u64| #[trigger] drawn(old(self).sampler_spec(), info.created_at, g)
                    && e.key == sat_add(old(self)@.vclock, g)
                &&& e.generation == generation_for(old(self)@.generations, info.path@)
                &&& final(self)@.seq == old(self)@.seq + 1
                &&& final(self)@.known.len() == old(self)@.known.len() + 1
                &&& meta_of(final(self)@.known, info.path@) == Meta {
                    created_at: info.created_at,
                    created_source: info.created_source,
                    generation: generation_for(old(self)@.generations, info.path@),
                    shown: false,
                }
            },
    {
        let ghost old_m = self@;
        let ghost p = info.path@;
        proof {
            lemma_find_known_index(self.known@, p);
            lemma_find_known(self.known@, p, 0);
            lemma_find_gen_index(self.generations@, p);
            lemma_find_gen(self.generations@, p, 0);
        }
        let ki = self.known_index(info.path.as_str());
        if ki < self.known.len() {
            let old_meta = self.known[ki].meta;
            assert(old_meta == old_m.known[ki as int].meta);
            let kp = KnownPhoto {
                path: self.known[ki].path.clone(),
                meta: Meta {
                    created_at: info.created_at,
                    created_source: info.created_source,
                    generation: old_meta.generation,
                    shown: old_meta.shown,
                },
            };
            self.known.set(ki, kp);
            proof {
                let m = self@;
                assert forall|i: int| 0 <= i < m.known.len() implies (#[trigger] m.known[i]).path@ == old_m.known[i].path@
                    && m.known[i].meta.generation == old_m.known[i].meta.generation by {}
                assert forall|i: int, j: int|
                    0 <= i < j < m.known.len() implies #[trigger] m.known[i].path@ != #[trigger] m.known[j].path@ by {
                    assert(m.known[i].path@ == old_m.known[i].path@);
                    assert(m.known[j].path@ == old_m.known[j].path@);
                }
                assert forall|q: Seq<char>| #![auto] find_known(m.known, q, 0) == find_known(old_m.known, q, 0) by {
                    lemma_find_known_index(old_m.known, q);
                    lemma_find_known_index(m.known, q);
                    lemma_find_known(old_m.known, q, 0);
                    let f = find_known(old_m.known, q, 0);
                    if f < old_m.known.len() {
                        assert(m.known[f].path@ == q);
                    } else {
                        assert forall|i: int| 0 <= i < m.known.len() implies m.known[i].path@ != q by {
                            assert(m.known[i].path@ == old_m.known[i].path@);
                        }
                    }
                }
                assert forall|q: Seq<char>| #![auto] q != p && is_known(old_m.known, q) implies meta_of(m.known, q) == meta_of(old_m.known, q) by {
                    let f = find_known(old_m.known, q, 0);
                    lemma_find_known(old_m.known, q, 0);
                    assert(f != ki);
                    assert(m.known == old_m.known.update(ki as int, m.known[ki as int]));
                    assert(m.known[f] == old_m.known[f]);
                }
                assert forall|e: Entry| #![auto] live(m.known, e) == live(old_m.known, e) by {
                    let f = find_known(old_m.known, e.path@, 0);
                    lemma_find_known(old_m.known, e.path@, 0);
                    assert(find_known(m.known, e.path@, 0) == f);
                    if f < old_m.known.len() {
                        assert(m.known == old_m.known.update(ki as int, m.known[ki as int]));
                        assert(m.known[f].meta.generation == old_m.known[f].meta.generation);
                    }
                }
                assert(playlist_wf(m)) by {
                    assert forall|i: int| 0 <= i < m.known.len() implies exists|j: int|
                        0 <= j < m.entries.len() && #[trigger] m.entries[j].path@ == #[trigger] m.known[i].path@
                            && m.entries[j].generation == m.known[i].meta.generation by {
                        assert(m.known[i].path@ == old_m.known[i].path@);
                        assert(m.known[i].meta.generation == old_m.known[i].meta.generation);
                        let j = choose|j: int|
                            0 <= j < old_m.entries.len() && #[trigger] old_m.entries[j].path@ == #[trigger] old_m.known[i].path@
                                && old_m.entries[j].generation == old_m.known[i].meta.generation;
                        assert(m.entries[j] == old_m.entries[j]);
                    }
                }
            }
            return ;
        }
        let gi = self.gen_index(info.path.as_str());
        let generation: u64 = if gi < self.generations.len() {
            self.generations[gi].generation
        } else {
            self.generations.push(PathGeneration { path: info.path.clone(), generation: 0 });
            0
        };
        let ghost m1 = self@;
        proof {
            assert forall|i: int, j: int|
                0 <= i < j < m1.generations.len() implies #[trigger] m1.generations[i].path@ != #[trigger] m1.generations[j].path@ by {
                if j == old_m.generations.len() {
                    assert(m1.generations[j].path@ == p);
                    assert(m1.generations[i] == old_m.generations[i]);
                } else {
                    assert(m1.generations[i] == old_m.generations[i]);
                    assert(m1.generations[j] == old_m.generations[j]);
                }
            }
            assert forall|q: Seq<char>| #![auto] find_gen(old_m.generations, q, 0) < old_m.generations.len() implies find_gen(m1.generations, q, 0) == find_gen(old_m.generations, q, 0)
                && m1.generations[find_gen(old_m.generations, q, 0)] == old_m.generations[find_gen(old_m.generations, q, 0)] by {
                lemma_find_gen_index(old_m.generations, q);
                lemma_find_gen(old_m.generations, q, 0);
                lemma_find_gen_index(m1.generations, q);
                let f = find_gen(old_m.generations, q, 0);
                assert(m1.generations[f] == old_m.generations[f]);
            }
            lemma_find_gen_index(m1.generations, p);
            lemma_find_gen(m1.generations, p, 0);
            if gi < old_m.generations.len() {
                assert(m1.generations == old_m.generations);
            } else {
                assert(m1.generations[old_m.generations.len() as int].path@ == p);
                assert(find_gen(m1.generations, p, 0) == old_m.generations.len());
            }
            assert(generation == generation_for(old_m.generations, p));
            assert(find_gen(m1.generations, p, 0) < m1.generations.len());
            assert(m1.generations[find_gen(m1.generations, p, 0)].generation == generation);
        }
        let created_at = info.created_at;
        let kp = KnownPhoto {
            path: info.path.clone(),
            meta: Meta { created_at, created_source: info.created_source, generation, shown: false },
        };
        self.known.push(kp);
        let gap = self.sampler.sample_gap(created_at);
        assert(call_ensures(S::sample_gap, (&self.sampler, created_at), gap));
        assert(drawn(self.sampler, info.created_at, gap));
        let key = self.vclock.saturating_add(gap);
        assert(key == sat_add(old_m.vclock, gap));
        let seq = self.seq;
        self.seq = self.seq + 1;
        self.entries.push(Entry { key, seq, generation, path: info.path });
        assert(self@.entries.last().key == sat_add(old_m.vclock, gap));
        assert(drawn(old(self).sampler_spec(), created_at, gap));
        proof {
            let m = self@;
            assert forall|i: int, j: int|
                0 <= i < j < m.known.len() implies #[trigger] m.known[i].path@ != #[trigger] m.known[j].path@ by {
                if j == old_m.known.len() {
                    assert(old_m.known[i].path@ != p);
                }
            }
            lemma_find_known_index(m.known, p);
            assert(m.known[old_m.known.len() as int].path@ == p);
            assert(find_known(m.known, p, 0) == old_m.known.len());
            assert forall|q: Seq<char>| #![auto] q != p implies (is_known(m.known, q) == is_known(old_m.known, q))
                && (is_known(old_m.known, q) ==> find_known(m.known, q, 0) == find_known(old_m.known, q, 0)) by {
                lemma_find_known_index(old_m.known, q);
                lemma_find_known(old_m.known, q, 0);
                lemma_find_known_index(m.known, q);
                lemma_find_known(m.known, q, 0);
                let f = find_known(old_m.known, q, 0);
                if f < old_m.known.len() {
                    assert(m.known[f].path@ == q);
                } else {
                    assert forall|i: int| 0 <= i < m.known.len() implies m.known[i].path@ != q by {
                        if i < old_m.known.len() {
                            assert(m.known[i] == old_m.known[i]);
                        }
                    }
                }
            }
            assert forall|q: Seq<char>| #![auto] q != p && is_known(old_m.known, q) implies meta_of(m.known, q) == meta_of(old_m.known, q) by {
                let f = find_known(old_m.known, q, 0);
                lemma_find_known(old_m.known, q, 0);
                assert(find_known(m.known, q, 0) == f);
                assert(m.known[f] == old_m.known[f]);
            }
            assert forall|e: Entry| #![auto] e.path@ != p implies live(m.known, e) == live(old_m.known, e) by {
                if is_known(old_m.known, e.path@) {
                    let f = find_known(old_m.known, e.path@, 0);
                    lemma_find_known(old_m.known, e.path@, 0);
                    assert(find_known(m.known, e.path@, 0) == f);
                    assert(m.known[f] == old_m.known[f]);
                }
            }
            assert(playlist_wf(m)) by {
                assert forall|i: int, j: int|
                    0 <= i < j < m.known.len() implies #[trigger] m.known[i].path@ != #[trigger] m.known[j].path@ by {
                    if j == old_m.known.len() {
                        assert(old_m.known[i].path@ != p);
                    }
                }
                assert forall|i: int| 0 <= i < m.known.len() implies {
                    let g = find_gen(m.generations, #[trigger] m.known[i].path@, 0);
                    &&& g < m.generations.len()
                    &&& m.generations[g].generation == m.known[i].meta.generation
                } by {
                    if i < old_m.known.len() {
                        let q = old_m.known[i].path@;
                        assert(find_gen(old_m.generations, q, 0) < old_m.generations.len());
                        assert(m.known[i] == old_m.known[i]);
                    } else {
                        assert(m.known[i].path@ == p);
                    }
                }
                assert forall|i: int| 0 <= i < m.entries.len() implies {
                    let g = find_gen(m.generations, #[trigger] m.entries[i].path@, 0);
                    &&& g < m.generations.len()
                    &&& m.entries[i].generation <= m.generations[g].generation
                } by {
                    if i < old_m.entries.len() {
                        let q = old_m.entries[i].path@;
                        assert(find_gen(old_m.generations, q, 0) < old_m.generations.len());
                    }
                }
                assert forall|i: int| 0 <= i < m.known.len() implies exists|j: int|
                    0 <= j < m.entries.len() && #[trigger] m.entries[j].path@ == #[trigger] m.known[i].path@
                        && m.entries[j].generation == m.known[i].meta.generation by {
                    if i == old_m.known.len() {
                        assert(m.entries[old_m.entries.len() as int].path@ == m.known[i].path@);
                    } else {
                        let j = choose|j: int|
                            0 <= j < old_m.entries.len() && #[trigger] old_m.entries[j].path@ == #[trigger] old_m.known[i].path@
                                && old_m.entries[j].generation == old_m.known[i].meta.generation;
                        assert(m.entries[j] == old_m.entries[j]);
                    }
                }
                assert forall|i: int, j: int|
                    0 <= i < j < m.entries.len() && live(m.known, #[trigger] m.entries[i]) && live(
                        m.known,
                        #[trigger] m.entries[j],
                    ) implies m.entries[i].path@ != m.entries[j].path@ by {
                    if j == old_m.entries.len() {
                        // An older entry for the same path carries an older generation,
                        // since the path was unknown.
                        if m.entries[i].path@ == p {
                            let q = old_m.entries[i].path@;
                            assert(old_m.entries[i] == m.entries[i]);
                            assert(find_gen(old_m.generations, q, 0) < old_m.generations.len());
                            assert(!is_known(old_m.known, p));
                            assert(old_m.entries[i].generation < generation);
                            assert(meta_of(m.known, p).generation == generation);
                        }
                    } else {
                        if m.entries[i].path@ != p && m.entries[j].path@ != p {
                            assert(live(old_m.known, old_m.entries[i]));
                            assert(live(old_m.known, old_m.entries[j]));
                        }
                    }
                }
            }
        }
    }
}

/// `m` with its entries replaced.
pub open spec fn with_entries(m: PlaylistModel, entries: Seq<Entry>) -> PlaylistModel {
    PlaylistModel { entries, ..m }
}

/// Dropping an entry that is not live keeps the invariant.
proof fn lemma_remove_stale_entry(m: PlaylistModel, i: int)
    requires
        playlist_wf(m),
        0 <= i < m.entries.len(),
        !live(m.known, m.entries[i]),
    ensures
        playlist_wf(with_entries(m, m.entries.remove(i))),
{
    let n = with_entries(m, m.entries.remove(i));
    assert forall|a: int, b: int|
        0 <= a < b < n.entries.len() implies #[trigger] n.entries[a].seq != #[trigger] n.entries[b].seq by {
        let a0 = if a < i { a } else { a + 1 };
        let b0 = if b < i { b } else { b + 1 };
        assert(n.entries[a] == m.entries[a0]);
        assert(n.entries[b] == m.entries[b0]);
    }
    assert forall|a: int| 0 <= a < n.entries.len() implies #[trigger] n.entries[a].seq < n.seq by {
        let a0 = if a < i { a } else { a + 1 };
        assert(n.entries[a] == m.entries[a0]);
    }
    assert forall|a: int| 0 <= a < n.entries.len() implies {
        let g = find_gen(n.generations, #[trigger] n.entries[a].path@, 0);
        &&& g < n.generations.len()
        &&& n.entries[a].generation <= n.generations[g].generation
        &&& n.entries[a].generation == n.generations[g].generation ==> is_known(n.known, n.entries[a].path@)
    } by {
        let a0 = if a < i { a } else { a + 1 };
        assert(n.entries[a] == m.entries[a0]);
    }
    assert forall|k: int| 0 <= k < n.known.len() implies exists|j: int|
        0 <= j < n.entries.len() && #[trigger] n.entries[j].path@ == #[trigger] n.known[k].path@
            && n.entries[j].generation == n.known[k].meta.generation by {
        let j = choose|j: int|
            0 <= j < m.entries.len() && #[trigger] m.entries[j].path@ == #[trigger] m.known[k].path@
                && m.entries[j].generation == m.known[k].meta.generation;
        lemma_find_known_index(m.known, m.known[k].path@);
        assert(live(m.known, m.entries[j]));
        assert(j != i);
        let j1 = if j < i { j } else { j - 1 };
        assert(n.entries[j1] == m.entries[j]);
    }
    assert forall|a: int, b: int|
        0 <= a < b < n.entries.len() && live(n.known, #[trigger] n.entries[a]) && live(
            n.known,
            #[trigger] n.entries[b],
        ) implies n.entries[a].path@ != n.entries[b].path@ by {
        let a0 = if a < i { a } else { a + 1 };
        let b0 = if b < i { b } else { b + 1 };
        assert(n.entries[a] == m.entries[a0]);
        assert(n.entries[b] == m.entries[b0]);
    }
}

impl<S: GapSampler> PlaylistState<S> {
    /// Generation that `path` would get if it were added now.
    pub fn generation_of(&self, path: &str) -> (g: u64)
        ensures
            g == generation_for(self@.generations, path@),
    {
        let gi = self.gen_index(path);
        if gi < self.generations.len() {
            self.generations[gi].generation
        } else {
            0
        }
    }

    /// Removes a photo from the inventory; its scheduled entries become stale.
    pub fn record_remove(&mut self, path: &str)
        requires
            playlist_wf(old(self)@),
            is_known(old(self)@.known, path@) ==> generation_for(old(self)@.generations, path@) < u64::MAX,
        ensures
            playlist_wf(final(self)@),
            final(self).sampler_spec() == old(self).sampler_spec(),
            !is_known(final(self)@.known, path@),
            forall|q: Seq<char>| q != path@ ==> (is_known(final(self)@.known, q) == is_known(old(self)@.known, q)),
            forall|q: Seq<char>| q != path@ && is_known(old(self)@.known, q) ==> meta_of(final(self)@.known, q) == meta_of(old(self)@.known, q),
            final(self)@.entries == old(self)@.entries,
            final(self)@.vclock == old(self)@.vclock,
            final(self)@.seq == old(self)@.seq,
    {
        let ghost old_m = self@;
        let ghost p = path@;
        proof {
            lemma_find_known_index(old_m.known, p);
            lemma_find_known(old_m.known, p, 0);
        }
        let ki = self.known_index(path);
        if ki >= self.known.len() {
            return ;
        }
        proof {
            lemma_find_gen_index(old_m.generations, p);
            lemma_find_gen(old_m.generations, p, 0);
        }
        let gi = self.gen_index(path);
        let g = self.generations[gi].generation;
        let pg = PathGeneration { path: self.generations[gi].path.clone(), generation: g + 1 };
        self.generations.set(gi, pg);
        self.known.remove(ki);
        proof {
            let m = self@;
            assert(m.known == old_m.known.remove(ki as int));
            assert forall|i: int| 0 <= i < m.known.len() implies #[trigger] m.known[i] == old_m.known[if i < ki { i } else { i + 1 }] by {}
            assert forall|i: int, j: int|
                0 <= i < j < m.known.len() implies #[trigger] m.known[i].path@ != #[trigger] m.known[j].path@ by {
                assert(m.known[i] == old_m.known[if i < ki { i } else { i + 1 }]);
                assert(m.known[j] == old_m.known[if j < ki { j } else { j + 1 }]);
            }
            assert forall|i: int| 0 <= i < m.generations.len() implies (#[trigger] m.generations[i]).path@ == old_m.generations[i].path@
                && (i != gi ==> m.generations[i] == old_m.generations[i]) by {}
            assert forall|i: int, j: int|
                0 <= i < j < m.generations.len() implies #[trigger] m.generations[i].path@ != #[trigger] m.generations[j].path@ by {
                assert(m.generations[i].path@ == old_m.generations[i].path@);
                assert(m.generations[j].path@ == old_m.generations[j].path@);
            }
            assert forall|q: Seq<char>| #![auto] find_gen(m.generations, q, 0) == find_gen(old_m.generations, q, 0) by {
                lemma_find_gen_index(old_m.generations, q);
                lemma_find_gen_index(m.generations, q);
                lemma_find_gen(old_m.generations, q, 0);
                let f = find_gen(old_m.generations, q, 0);
                if f < old_m.generations.len() {
                    assert(m.generations[f].path@ == q);
                } else {
                    assert forall|i: int| 0 <= i < m.generations.len() implies m.generations[i].path@ != q by {
                        assert(m.generations[i].path@ == old_m.generations[i].path@);
                    }
                }
            }
            assert(!is_known(m.known, p)) by {
                lemma_find_known_index(m.known, p);
                assert forall|i: int| 0 <= i < m.known.len() implies m.known[i].path@ != p by {
                    let i0 = if i < ki { i } else { i + 1 };
                    assert(m.known[i] == old_m.known[i0]);
                }
            }
            assert forall|q: Seq<char>| #![auto] q != p implies (is_known(m.known, q) == is_known(old_m.known, q))
                && (is_known(old_m.known, q) ==> meta_of(m.known, q) == meta_of(old_m.known, q)) by {
                lemma_find_known_index(old_m.known, q);
                lemma_find_known_index(m.known, q);
                lemma_find_known(old_m.known, q, 0);
                lemma_find_known(m.known, q, 0);
                let f = find_known(old_m.known, q, 0);
                if f < old_m.known.len() {
                    assert(f != ki);
                    let f1 = if f < ki { f } else { f - 1 };
                    assert(m.known[f1] == old_m.known[f]);
                } else {
                    assert forall|i: int| 0 <= i < m.known.len() implies m.known[i].path@ != q by {
                        let i0 = if i < ki { i } else { i + 1 };
                        assert(m.known[i] == old_m.known[i0]);
                    }
                }
            }
            assert forall|e: Entry| #![auto] live(m.known, e) ==> live(old_m.known, e) by {
                if e.path@ != p && is_known(m.known, e.path@) {
                    assert(meta_of(m.known, e.path@) == meta_of(old_m.known, e.path@));
                }
            }
            assert(playlist_wf(m)) by {
                assert forall|i: int| 0 <= i < m.known.len() implies {
                    let g = find_gen(m.generations, #[trigger] m.known[i].path@, 0);
                    &&& g < m.generations.len()
                    &&& m.generations[g].generation == m.known[i].meta.generation
                } by {
                    let i0 = if i < ki { i } else { i + 1 };
                    assert(m.known[i] == old_m.known[i0]);
                    let q = old_m.known[i0].path@;
                    assert(q != p);
                    let f = find_gen(old_m.generations, q, 0);
                    lemma_find_gen(old_m.generations, q, 0);
                    lemma_find_gen(old_m.generations, p, 0);
                    assert(old_m.generations[gi as int].path@ == p);
                    assert(f != gi);
                }
                assert forall|i: int| 0 <= i < m.entries.len() implies {
                    let g = find_gen(m.generations, #[trigger] m.entries[i].path@, 0);
                    &&& g < m.generations.len()
                    &&& m.entries[i].generation <= m.generations[g].generation
                    &&& m.entries[i].generation == m.generations[g].generation ==> is_known(m.known, m.entries[i].path@)
                } by {
                    let q = m.entries[i].path@;
                    let f = find_gen(old_m.generations, q, 0);
                    assert(old_m.entries[i] == m.entries[i]);
                    lemma_find_gen(old_m.generations, q, 0);
                    lemma_find_gen(old_m.generations, p, 0);
                    assert(old_m.generations[gi as int].path@ == p);
                    if q == p {
                        assert(f == gi);
                    } else {
                        assert(f != gi);
                    }
                }
                assert forall|k: int| 0 <= k < m.known.len() implies exists|j: int|
                    0 <= j < m.entries.len() && #[trigger] m.entries[j].path@ == #[trigger] m.known[k].path@
                        && m.entries[j].generation == m.known[k].meta.generation by {
                    let k0 = if k < ki { k } else { k + 1 };
                    assert(m.known[k] == old_m.known[k0]);
                    let j = choose|j: int|
                        0 <= j < old_m.entries.len() && #[trigger] old_m.entries[j].path@ == #[trigger] old_m.known[k0].path@
                            && old_m.entries[j].generation == old_m.known[k0].meta.generation;
                    assert(m.entries[j] == old_m.entries[j]);
                }
                assert forall|i: int, j: int|
                    0 <= i < j < m.entries.len() && live(m.known, #[trigger] m.entries[i]) && live(
                        m.known,
                        #[trigger] m.entries[j],
                    ) implies m.entries[i].path@ != m.entries[j].path@ by {
                    assert(live(old_m.known, m.entries[i]));
                    assert(live(old_m.known, m.entries[j]));
                    assert(old_m.entries[i] == m.entries[i]);
                    assert(old_m.entries[j] == m.entries[j]);
                }
            }
        }
    }
}

/// Every entry is live (no tombstones are waiting in the queue).
pub open spec fn all_live(m: PlaylistModel) -> bool {
    forall|i: int| 0 <= i < m.entries.len() ==> live(m.known, #[trigger] m.entries[i])
}

/// The front of `m`'s queue is the live entry for `p`, and `priority` says it was never shown.
pub open spec fn peeked(m: PlaylistModel, p: Seq<char>, priority: bool) -> bool {
    exists|i: int| {
        &&& is_front(m.entries, i)
        &&& live(m.known, #[trigger] m.entries[i])
        &&& m.entries[i].path@ == p
        &&& priority == !meta_of(m.known, p).shown
    }
}

impl<S: GapSampler> PlaylistState<S> {
    /// Drops tombstoned entries from the front, then reports the front photo
    /// and whether it has never been shown, without committing to it.
    pub fn peek_next(&mut self) -> (r: Option<(String, bool)>)
        requires
            playlist_wf(old(self)@),
        ensures
            playlist_wf(final(self)@),
            final(self).sampler_spec() == old(self).sampler_spec(),
            final(self)@.known == old(self)@.known,
            final(self)@.generations == old(self)@.generations,
            final(self)@.vclock == old(self)@.vclock,
            final(self)@.seq == old(self)@.seq,
            final(self)@.entries.len() <= old(self)@.entries.len(),
            all_live(old(self)@) ==> final(self)@.entries == old(self)@.entries,
            r matches Some((p, priority)) ==> peeked(final(self)@, p@, priority),
            r is None <==> old(self)@.known.len() == 0,
    {
        let ghost start = self@;
        loop
            invariant
                start == old(self)@,
                self.sampler == old(self).sampler,
                playlist_wf(self@),
                self@.known == start.known,
                self@.generations == start.generations,
                self@.vclock == start.vclock,
                self@.seq == start.seq,
                self@.entries.len() <= start.entries.len(),
                all_live(start) ==> self@.entries == start.entries,
            decreases self@.entries.len(),
        {
            let fi = self.front_index();
            match fi {
                None => {
                    proof {
                        if self@.known.len() > 0 {
                            let k = 0int;
                            let j = choose|j: int|
                                0 <= j < self@.entries.len() && #[trigger] self@.entries[j].path@ == #[trigger] self@.known[k].path@
                                    && self@.entries[j].generation == self@.known[k].meta.generation;
                        }
                    }
                    return None;
                },
                Some(i) => {
                    let ki = self.known_index(self.entries[i].path.as_str());
                    let valid = ki < self.known.len() && self.known[ki].meta.generation == self.entries[i].generation;
                    if valid {
                        let priority = !self.known[ki].meta.shown;
                        let path = self.entries[i].path.clone();
                        proof {
                            assert(live(self@.known, self@.entries[i as int]));
                            assert(peeked(self@, path@, priority));
                            assert(self@.known.len() > 0);
                        }
                        return Some((path, priority));
                    }
                    proof {
                        lemma_remove_stale_entry(self@, i as int);
                    }
                    self.entries.remove(i);
                },
            }
        }
    }

    /// Marks the front photo shown and reschedules it behind the photo that is
    /// now next, so that it is not shown twice in a row while others wait;
    /// a tombstoned front entry is dropped instead.
    pub fn commit_shown(&mut self)
        requires
            playlist_wf(old(self)@),
            old(self)@.seq < u64::MAX,
        ensures
            playlist_wf(final(self)@),
            final(self).sampler_spec() == old(self).sampler_spec(),
            final(self)@.generations == old(self)@.generations,
            old(self)@.entries.len() == 0 ==> final(self)@ == old(self)@,
            old(self)@.entries.len() > 0 ==> exists|i: int| #![trigger old(self)@.entries[i]] {
                &&& is_front(old(self)@.entries, i)
                &&& if live(old(self)@.known, old(self)@.entries[i]) {
                    committed(old(self)@, final(self)@, i) && rekeyed(old(self).sampler_spec(), old(self)@, final(self)@, i)
                } else {
                    final(self)@ == with_entries(old(self)@, old(self)@.entries.remove(i))
                }
            },
    {
        let ghost old_m = self@;
        let fi = self.front_index();
        let i = match fi {
            None => return ,
            Some(i) => i,
        };
        let ki = self.known_index(self.entries[i].path.as_str());
        if !(ki < self.known.len() && self.known[ki].meta.generation == self.entries[i].generation) {
            proof {
                lemma_remove_stale_entry(self@, i as int);
            }
            self.entries.remove(i);
            return ;
        }
        proof {
            assert(live(old_m.known, old_m.entries[i as int]));
        }
        let entry = self.entries.remove(i);
        let m0 = self.known[ki].meta;
        let kp = KnownPhoto {
            path: self.known[ki].path.clone(),
            meta: Meta { created_at: m0.created_at, created_source: m0.created_source, generation: m0.generation, shown: true },
        };
        self.known.set(ki, kp);
        self.vclock = entry.key;
        let gap = self.sampler.sample_gap(m0.created_at);
        assert(call_ensures(S::sample_gap, (&self.sampler, m0.created_at), gap));
        let k1 = self.vclock.saturating_add(gap);
        let mut key = k1;
        let next = self.front_index();
        let ghost mut bumped: Option<(int, u64)> = None;
        if let Some(ni) = next {
            let next_key = self.entries[ni].key;
            if key <= next_key {
                let gap2 = self.sampler.sample_gap(m0.created_at);
                assert(call_ensures(S::sample_gap, (&self.sampler, m0.created_at), gap2));
                key = next_key.saturating_add(gap2);
                proof {
                    bumped = Some((ni as int, gap2));
                }
            }
        }
        let seq = self.seq;
        self.seq = self.seq + 1;
        let ghost rest = self@.entries;
        self.entries.push(Entry { key, seq, generation: entry.generation, path: entry.path });
        proof {
            assert(self@.entries.drop_last() == rest);
            assert(rest == old_m.entries.remove(i as int));
            lemma_commit_wf(old_m, self@, i as int, ki as int);
            if let Some(ni) = next {
                let n = self@.entries.last();
                assert(before(rest[ni as int], n));
                assert(self@.entries[ni as int] == rest[ni as int]);
                assert(!before(n, rest[ni as int]));
            }
            assert(committed(old_m, self@, i as int));
            assert(m0.created_at == meta_of(old_m.known, old_m.entries[i as int].path@).created_at);
            assert(drawn(self.sampler, m0.created_at, gap));
            let rest_m = old_m.entries.remove(i as int);
            assert(rest == rest_m);
            match bumped {
                Some((j, g2)) => {
                    assert(drawn(self.sampler, m0.created_at, g2));
                    assert(is_front(rest, j));
                    assert(sat_add(entry.key, gap) <= rest[j].key);
                },
                None => {
                    assert forall|j: int| #[trigger] is_front(rest, j) implies sat_add(entry.key, gap) > rest[j].key by {
                        if let Some(ni) = next {
                            lemma_front_unique(rest, j, ni as int);
                        }
                    }
                },
            }
            assert(rekeyed(self.sampler, old_m, self@, i as int));
        }
    }
}

proof fn lemma_front_unique(entries: Seq<Entry>, a: int, b: int)
    requires
        is_front(entries, a),
        is_front(entries, b),
    ensures
        a == b,
{
    if a != b {
        assert(before(entries[a], entries[b]));
        assert(before(entries[b], entries[a]));
    }
}

/// The new key of the front entry `i` of `old`, in `new`: the clock (the
/// entry's key) plus a gap drawn for the photo's creation time; when that
/// would not place it after the new front, the front's key plus a second such
/// gap.
pub open spec fn rekeyed<S: GapSampler>(s: S, old: PlaylistModel, new: PlaylistModel, i: int) -> bool {
    let e = old.entries[i];
    let rest = old.entries.remove(i);
    let n = new.entries.last();
    let ca = meta_of(old.known, e.path@).created_at;
    exists|g: u64|
        #[trigger] drawn(s, ca, g) && {
            let k1 = sat_add(e.key, g);
            ||| (forall|j: int| #[trigger] is_front(rest, j) ==> k1 > rest[j].key) && n.key == k1
            ||| exists|j: int, g2: u64|
                #![trigger is_front(rest, j), drawn(s, ca, g2)]
                is_front(rest, j) && k1 <= rest[j].key && drawn(s, ca, g2) && n.key == sat_add(rest[j].key, g2)
        }
}

/// A committed showing of the live front entry `i` of `old`: the photo is
/// marked shown, the clock moves to the entry's key, and the entry is replaced
/// by a new one at the back of the sequence numbers whose key is no earlier
/// than the clock and, when other entries remain, comes after the new front.
pub open spec fn committed(old: PlaylistModel, new: PlaylistModel, i: int) -> bool {
    let e = old.entries[i];
    let rest = old.entries.remove(i);
    let n = new.entries.last();
    &&& new.entries.len() == old.entries.len()
    &&& new.entries.drop_last() == rest
    &&& n.path@ == e.path@
    &&& n.generation == e.generation
    &&& n.seq == old.seq
    &&& n.key >= e.key
    &&& new.vclock == e.key
    &&& new.seq == old.seq + 1
    &&& (rest.len() > 0 ==> !is_front(new.entries, new.entries.len() - 1))
    &&& new.known.len() == old.known.len()
    &&& (forall|q: Seq<char>| #![auto] is_known(new.known, q) == is_known(old.known, q))
    &&& meta_of(new.known, e.path@) == Meta { shown: true, ..meta_of(old.known, e.path@) }
    &&& (forall|q: Seq<char>| #![auto] q != e.path@ && is_known(old.known, q) ==> meta_of(new.known, q) == meta_of(old.known, q))
}

proof fn lemma_commit_wf(old: PlaylistModel, new: PlaylistModel, i: int, ki: int)
    requires
        playlist_wf(old),
        is_front(old.entries, i),
        live(old.known, old.entries[i]),
        ki == find_known(old.known, old.entries[i].path@, 0),
        new.generations == old.generations,
        new.seq == old.seq + 1,
        new.vclock == old.entries[i].key,
        new.entries.len() == old.entries.len(),
        new.entries.drop_last() == old.entries.remove(i),
        new.entries.last().path@ == old.entries[i].path@,
        new.entries.last().generation == old.entries[i].generation,
        new.entries.last().seq == old.seq,
        new.entries.last().key >= old.entries[i].key,
        new.known.len() == old.known.len(),
        new.known[ki].path@ == old.known[ki].path@,
        new.known[ki].meta == (Meta { shown: true, ..old.known[ki].meta }),
        forall|k: int| 0 <= k < old.known.len() && k != ki ==> #[trigger] new.known[k] == old.known[k],
    ensures
        playlist_wf(new),
        forall|q: Seq<char>| #![auto] is_known(new.known, q) == is_known(old.known, q),
        meta_of(new.known, old.entries[i].path@) == (Meta { shown: true, ..meta_of(old.known, old.entries[i].path@) }),
        forall|q: Seq<char>| #![auto] q != old.entries[i].path@ && is_known(old.known, q) ==> meta_of(new.known, q) == meta_of(old.known, q),
{
    let e = old.entries[i];
    let p = e.path@;
    let rest = old.entries.remove(i);
    let last = (new.entries.len() - 1) as int;
    lemma_find_known(old.known, p, 0);
    assert forall|k: int| 0 <= k < new.known.len() implies (#[trigger] new.known[k]).path@ == old.known[k].path@
        && new.known[k].meta.generation == old.known[k].meta.generation by {
        if k != ki {
            assert(new.known[k] == old.known[k]);
        }
    }
    assert forall|a: int, b: int|
        0 <= a < b < new.known.len() implies #[trigger] new.known[a].path@ != #[trigger] new.known[b].path@ by {
        assert(new.known[a].path@ == old.known[a].path@);
        assert(new.known[b].path@ == old.known[b].path@);
    }
    assert forall|q: Seq<char>| #![auto] find_known(new.known, q, 0) == find_known(old.known, q, 0) by {
        lemma_find_known_index(old.known, q);
        lemma_find_known_index(new.known, q);
        lemma_find_known(old.known, q, 0);
        let f = find_known(old.known, q, 0);
        if f < old.known.len() {
            assert(new.known[f].path@ == q);
        } else {
            assert forall|k: int| 0 <= k < new.known.len() implies new.known[k].path@ != q by {
                assert(new.known[k].path@ == old.known[k].path@);
            }
        }
    }
    assert forall|x: Entry| #![auto] live(new.known, x) == live(old.known, x) by {
        let f = find_known(old.known, x.path@, 0);
        lemma_find_known(old.known, x.path@, 0);
        if f < old.known.len() {
            assert(new.known[f].meta.generation == old.known[f].meta.generation);
        }
    }
    assert forall|j: int| 0 <= j < new.entries.len() implies #[trigger] new.entries[j] == if j == last { new.entries.last() } else if j < i { old.entries[j] } else { old.entries[j + 1] } by {
        if j < last {
            assert(new.entries[j] == new.entries.drop_last()[j]);
        }
    }
    assert(playlist_wf(new)) by {
        assert forall|a: int, b: int|
            0 <= a < b < new.entries.len() implies #[trigger] new.entries[a].seq != #[trigger] new.entries[b].seq by {
            let a0 = if a < i { a } else { a + 1 };
            let b0 = if b < i { b } else { b + 1 };
            if b == last {
                assert(new.entries[a] == old.entries[a0]);
            } else {
                assert(new.entries[a] == old.entries[a0]);
                assert(new.entries[b] == old.entries[b0]);
            }
        }
        assert forall|a: int| 0 <= a < new.entries.len() implies #[trigger] new.entries[a].seq < new.seq by {
            let a0 = if a < i { a } else { a + 1 };
            if a < last {
                assert(new.entries[a] == old.entries[a0]);
            }
        }
        assert forall|k: int| 0 <= k < new.known.len() implies {
            let g = find_gen(new.generations, #[trigger] new.known[k].path@, 0);
            &&& g < new.generations.len()
            &&& new.generations[g].generation == new.known[k].meta.generation
        } by {
            assert(new.known[k].path@ == old.known[k].path@);
        }
        assert forall|a: int| 0 <= a < new.entries.len() implies {
            let g = find_gen(new.generations, #[trigger] new.entries[a].path@, 0);
            &&& g < new.generations.len()
            &&& new.entries[a].generation <= new.generations[g].generation
            &&& new.entries[a].generation == new.generations[g].generation ==> is_known(new.known, new.entries[a].path@)
        } by {
            let a0 = if a < i { a } else { a + 1 };
            if a < last {
                assert(new.entries[a] == old.entries[a0]);
            } else {
                assert(new.entries[a].path@ == old.entries[i].path@);
            }
        }
        assert forall|k: int| 0 <= k < new.known.len() implies exists|j: int|
            0 <= j < new.entries.len() && #[trigger] new.entries[j].path@ == #[trigger] new.known[k].path@
                && new.entries[j].generation == new.known[k].meta.generation by {
            if new.known[k].path@ == p {
                lemma_find_known_index(old.known, p);
                assert(k == ki);
                assert(new.entries[last].path@ == new.known[k].path@);
            } else {
                let j = choose|j: int|
                    0 <= j < old.entries.len() && #[trigger] old.entries[j].path@ == #[trigger] old.known[k].path@
                        && old.entries[j].generation == old.known[k].meta.generation;
                assert(j != i);
                let j1 = if j < i { j } else { j - 1 };
                assert(new.entries[j1] == old.entries[j]);
            }
        }
        assert forall|a: int, b: int|
            0 <= a < b < new.entries.len() && live(new.known, #[trigger] new.entries[a]) && live(
                new.known,
                #[trigger] new.entries[b],
            ) implies new.entries[a].path@ != new.entries[b].path@ by {
            let a0 = if a < i { a } else { a + 1 };
            let b0 = if b < i { b } else { b + 1 };
            assert(new.entries[a] == old.entries[a0]);
            if b == last {
                // The popped entry was the only live entry for its path.
                assert(live(old.known, old.entries[a0]));
                if a0 < i {
                    assert(old.entries[a0].path@ != old.entries[i].path@);
                } else {
                    assert(old.entries[i].path@ != old.entries[a0].path@);
                }
            } else {
                assert(new.entries[b] == old.entries[b0]);
            }
        }
    }
    lemma_find_known_index(old.known, p);
    assert forall|q: Seq<char>| #![auto] q != p && is_known(old.known, q) implies meta_of(new.known, q) == meta_of(old.known, q) by {
        let f = find_known(old.known, q, 0);
        lemma_find_known(old.known, q, 0);
        assert(f != ki);
        assert(new.known[f] == old.known[f]);
    }
}

/// The path of some photo in `photos` is `p`.
pub open spec fn is_photo_path(photos: Seq<PhotoInfo>, p: Seq<char>) -> bool {
    exists|i: int| 0 <= i < photos.len() && #[trigger] photos[i].path@ == p
}

/// Two known photos with different paths give the queue at least two entries.
proof fn lemma_two_known_two_entries(m: PlaylistModel, a: int, b: int)
    requires
        playlist_wf(m),
        0 <= a < m.known.len(),
        0 <= b < m.known.len(),
        m.known[a].path@ != m.known[b].path@,
    ensures
        m.entries.len() >= 2,
{
    let ja = choose|j: int|
        0 <= j < m.entries.len() && #[trigger] m.entries[j].path@ == #[trigger] m.known[a].path@
            && m.entries[j].generation == m.known[a].meta.generation;
    let jb = choose|j: int|
        0 <= j < m.entries.len() && #[trigger] m.entries[j].path@ == #[trigger] m.known[b].path@
            && m.entries[j].generation == m.known[b].meta.generation;
    assert(ja != jb);
}

/// Every photo in the inventory is live in the queue when no tombstones wait.
proof fn lemma_commit_keeps_all_live(old: PlaylistModel, new: PlaylistModel, i: int)
    requires
        playlist_wf(old),
        all_live(old),
        is_front(old.entries, i),
        committed(old, new, i),
        live(old.known, old.entries[i]),
    ensures
        all_live(new),
{
    let rest = old.entries.remove(i);
    assert forall|j: int| 0 <= j < new.entries.len() implies live(new.known, #[trigger] new.entries[j]) by {
        let x = new.entries[j];
        if j < new.entries.len() - 1 {
            assert(x == new.entries.drop_last()[j]);
            let j0 = if j < i { j } else { j + 1 };
            assert(x == old.entries[j0]);
            assert(live(old.known, x));
            let q = x.path@;
            if q == old.entries[i].path@ {
                assert(meta_of(new.known, q).generation == meta_of(old.known, q).generation);
            } else {
                assert(meta_of(new.known, q) == meta_of(old.known, q));
            }
        } else {
            let q = old.entries[i].path@;
            assert(meta_of(new.known, q).generation == meta_of(old.known, q).generation);
        }
    }
}

/// Two photos in `photos` have different paths.
pub open spec fn has_two_paths(photos: Seq<PhotoInfo>) -> bool {
    exists|a: int, b: int| 0 <= a < photos.len() && 0 <= b < photos.len() && #[trigger] photos[a].path@ != #[trigger] photos[b].path@
}

/// The showing order that the playlist produces for `photos` over
/// `iterations` steps, drawing gaps from `sampler`.
/// One showing in a run of the scheduler with sampler `s`: `p` is the live
/// front photo of `m`, and `next` is `m` after committing it.
pub open spec fn showing<S: GapSampler>(s: S, m: PlaylistModel, next: PlaylistModel, p: Seq<char>) -> bool {
    exists|i: int|
        #![trigger m.entries[i]]
        is_front(m.entries, i) && live(m.known, m.entries[i]) && m.entries[i].path@ == p && committed(m, next, i)
            && rekeyed(s, m, next, i)
}

/// The state a run over `photos` starts from: exactly their paths are known,
/// all entries are live, the clock is at zero, and each entry's key is a gap
/// drawn from `s` for a photo of its path.
pub open spec fn loaded<S: GapSampler>(s: S, photos: Seq<PhotoInfo>, m: PlaylistModel) -> bool {
    &&& playlist_wf(m)
    &&& all_live(m)
    &&& m.vclock == 0
    &&& forall|q: Seq<char>| #![auto] is_known(m.known, q) <==> is_photo_path(photos, q)
    &&& forall|j: int|
        0 <= j < m.entries.len() ==> exists|a: int, g: u64|
            0 <= a < photos.len() && photos[a].path@ == (#[trigger] m.entries[j]).path@ && #[trigger] drawn(
                s,
                photos[a].created_at,
                g,
            ) && m.entries[j].key == g
}

/// `plan` is the sequence of photos that a run of the scheduler shows: from a
/// state `loaded` with `photos`, each is the front photo, committed in turn.
pub open spec fn planned<S: GapSampler>(s: S, photos: Seq<PhotoInfo>, plan: Seq<Seq<char>>) -> bool {
    exists|ms: Seq<PlaylistModel>|
        ms.len() == plan.len() + 1 && loaded(s, photos, ms[0]) && forall|k: int|
            0 <= k < plan.len() ==> #[trigger] showing(s, ms[k], ms[k + 1], plan[k])
}

/// The paths of a plan.
pub open spec fn plan_paths(plan: Seq<String>) -> Seq<Seq<char>> {
    plan.map_values(|p: String| p@)
}

pub fn simulate_playlist<S: GapSampler>(photos: Vec<PhotoInfo>, sampler: S, iterations: usize) -> (plan: Vec<String>)
    requires
        photos.len() + iterations < u64::MAX,
    ensures
        plan.len() == (if photos.len() == 0 {
            0
        } else {
            iterations as int
        }),
        forall|k: int| 0 <= k < plan.len() ==> is_photo_path(photos@, #[trigger] plan@[k]@),
        has_two_paths(photos@) ==> forall|k: int| 0 <= k < plan.len() - 1 ==> #[trigger] plan@[k]@ != plan@[k + 1]@,
        (forall|a: int| 0 <= a < photos.len() ==> #[trigger] photos@[a].path@ == photos@[0].path@)
            ==> forall|k: int| 0 <= k < plan.len() ==> #[trigger] plan@[k]@ == photos@[0].path@,
        planned(sampler, photos@, plan_paths(plan@)),
{
    let ghost s = sampler;
    let mut pl = PlaylistState::with_sampler(sampler);
    let mut i: usize = 0;
    while i < photos.len()
        invariant
            0 <= i <= photos.len(),
            photos.len() + iterations < u64::MAX,
            playlist_wf(pl@),
            all_live(pl@),
            pl@.seq <= i,
            forall|a: int| 0 <= a < i ==> is_known(pl@.known, #[trigger] photos@[a].path@),
            forall|q: Seq<char>| #![auto] is_known(pl@.known, q) ==> is_photo_path(photos@, q),
            forall|q: Seq<char>| #![auto] is_known(pl@.known, q) ==> exists|a: int| 0 <= a < i && #[trigger] photos@[a].path@ == q,
            pl.sampler_spec() == s,
            pl@.vclock == 0,
            forall|j: int|
                0 <= j < pl@.entries.len() ==> exists|a: int, g: u64|
                    0 <= a < photos.len() && photos@[a].path@ == (#[trigger] pl@.entries[j]).path@ && #[trigger] drawn(
                        s,
                        photos@[a].created_at,
                        g,
                    ) && pl@.entries[j].key == g,
        decreases photos.len() - i,
    {
        let info = PhotoInfo {
            path: photos[i].path.clone(),
            created_at: photos[i].created_at,
            created_source: photos[i].created_source,
            runtime_added: photos[i].runtime_added,
        };
        let ghost before = pl@;
        pl.record_add(info);
        proof {
            let after = pl@;
            let p = photos@[i as int].path@;
            assert forall|j: int| 0 <= j < after.entries.len() implies live(after.known, #[trigger] after.entries[j]) by {
                if is_known(before.known, p) {
                    assert(after.entries[j] == before.entries[j]);
                    assert(live(before.known, before.entries[j]));
                } else if j < before.entries.len() {
                    assert(after.entries[j] == after.entries.drop_last()[j]);
                    assert(live(before.known, before.entries[j]));
                    assert(after.entries[j].path@ != p);
                }
            }
            assert forall|q: Seq<char>| #![auto] is_known(after.known, q) implies is_photo_path(photos@, q) by {
                if q == p {
                    assert(photos@[i as int].path@ == q);
                }
            }
            assert forall|q: Seq<char>| #![auto] is_known(after.known, q) implies exists|a: int| 0 <= a < i + 1 && #[trigger] photos@[a].path@ == q by {
                if q == p {
                    assert(photos@[i as int].path@ == q);
                } else {
                    assert(is_known(before.known, q));
                }
            }
            assert forall|j: int| 0 <= j < after.entries.len() implies exists|a: int, g: u64|
                0 <= a < photos.len() && photos@[a].path@ == (#[trigger] after.entries[j]).path@ && #[trigger] drawn(
                    s,
                    photos@[a].created_at,
                    g,
                ) && after.entries[j].key == g by {
                if is_known(before.known, p) || j < before.entries.len() {
                    if !is_known(before.known, p) {
                        assert(after.entries[j] == after.entries.drop_last()[j]);
                    }
                    assert(after.entries[j] == before.entries[j]);
                } else {
                    let e = after.entries.last();
                    let g = choose|g: u64| #[trigger] drawn(s, photos@[i as int].created_at, g) && e.key == sat_add(before.vclock, g);
                    assert(drawn(s, photos@[i as int].created_at, g));
                    assert(after.entries[j] == e);
                }
            }
        }
        i = i + 1;
    }
    let ghost two = has_two_paths(photos@);
    let ghost wa: int = 0;
    let ghost wb: int = 0;
    proof {
        if two {
            let (a, b) = choose|a: int, b: int| 0 <= a < photos.len() && 0 <= b < photos.len() && #[trigger] photos@[a].path@ != #[trigger] photos@[b].path@;
            wa = a;
            wb = b;
        }
    }
    proof {
        assert forall|q: Seq<char>| #![auto] is_photo_path(photos@, q) implies is_known(pl@.known, q) by {
            let a = choose|a: int| 0 <= a < photos.len() && photos@[a].path@ == q;
            assert(is_known(pl@.known, photos@[a].path@));
        }
    }
    let ghost ms: Seq<PlaylistModel> = seq![pl@];
    assert(loaded(s, photos@, ms[0]));
    let mut plan: Vec<String> = Vec::new();
    let mut k: usize = 0;
    while k < iterations
        invariant
            photos.len() + iterations < u64::MAX,
            playlist_wf(pl@),
            all_live(pl@),
            pl@.seq <= photos.len() + k,
            0 <= k <= iterations,
            plan.len() == k,
            forall|a: int| 0 <= a < photos.len() ==> is_known(pl@.known, #[trigger] photos@[a].path@),
            forall|q: Seq<char>| #![auto] is_known(pl@.known, q) ==> is_photo_path(photos@, q),
            photos.len() == 0 ==> k == 0,
            forall|j: int| 0 <= j < plan.len() ==> is_photo_path(photos@, #[trigger] plan@[j]@),
            two == has_two_paths(photos@),
            two ==> 0 <= wa < photos.len() && 0 <= wb < photos.len() && photos@[wa].path@ != photos@[wb].path@,
            two && plan.len() > 0 ==> forall|g: int| is_front(pl@.entries, g) ==> #[trigger] pl@.entries[g].path@ != plan@.last()@,
            two ==> forall|j: int| 0 <= j < plan.len() - 1 ==> #[trigger] plan@[j]@ != plan@[j + 1]@,
            pl.sampler_spec() == s,
            ms.len() == plan.len() + 1,
            ms.last() == pl@,
            loaded(s, photos@, ms[0]),
            forall|j: int| 0 <= j < plan.len() ==> #[trigger] showing(s, ms[j], ms[j + 1], plan@[j]@),
        ensures
            ms.len() == plan.len() + 1,
            loaded(s, photos@, ms[0]),
            forall|j: int| 0 <= j < plan.len() ==> #[trigger] showing(s, ms[j], ms[j + 1], plan@[j]@),
            plan.len() == (if photos.len() == 0 {
                0
            } else {
                iterations as int
            }),
            forall|j: int| 0 <= j < plan.len() ==> is_photo_path(photos@, #[trigger] plan@[j]@),
            two ==> forall|j: int| 0 <= j < plan.len() - 1 ==> #[trigger] plan@[j]@ != plan@[j + 1]@,
        decreases iterations - k,
    {
        let ghost m0 = pl@;
        match pl.peek_next() {
            Some((path, _priority)) => {
                let ghost m1 = pl@;
                let ghost prev = plan@;
                proof {
                    assert(m1 == m0);
                }
                plan.push(path);
                pl.commit_shown();
                proof {
                    let m2 = pl@;
                    let f = choose|f: int| {
                        &&& is_front(m1.entries, f)
                        &&& live(m1.known, #[trigger] m1.entries[f])
                        &&& m1.entries[f].path@ == plan@.last()@
                        &&& _priority == !meta_of(m1.known, plan@.last()@).shown
                    };
                    let i = choose|i: int| #![trigger m1.entries[i]] {
                        &&& is_front(m1.entries, i)
                        &&& if live(m1.known, m1.entries[i]) {
                            committed(m1, m2, i)
                        } else {
                            m2 == with_entries(m1, m1.entries.remove(i))
                        }
                    };
                    if f != i {
                        assert(before(m1.entries[f], m1.entries[i]));
                        assert(before(m1.entries[i], m1.entries[f]));
                    }
                    assert(live(m1.known, m1.entries[i]));
                    let ms_prev = ms;
                    ms = ms.push(m2);
                    assert(showing(s, m1, m2, plan@.last()@));
                    assert forall|j: int| 0 <= j < plan.len() implies #[trigger] showing(s, ms[j], ms[j + 1], plan@[j]@) by {
                        if j < prev.len() {
                            assert(plan@[j] == prev[j]);
                            assert(ms[j] == ms_prev[j]);
                            assert(ms[j + 1] == ms_prev[j + 1]);
                        } else {
                            assert(ms[j] == m1);
                            assert(ms[j + 1] == m2);
                        }
                    }
                    lemma_commit_keeps_all_live(m1, m2, i);
                    let p = m1.entries[i].path@;
                    assert forall|a: int| 0 <= a < photos.len() implies is_known(m2.known, #[trigger] photos@[a].path@) by {
                        assert(is_known(m1.known, photos@[a].path@));
                    }
                    assert forall|q: Seq<char>| #![auto] is_known(m2.known, q) implies is_photo_path(photos@, q) by {
                        assert(is_known(m1.known, q));
                    }
                    assert forall|j: int| 0 <= j < plan.len() implies is_photo_path(photos@, #[trigger] plan@[j]@) by {
                        if j < prev.len() {
                            assert(plan@[j] == prev[j]);
                        } else {
                            lemma_find_known(m1.known, p, 0);
                            assert(is_known(m1.known, p));
                        }
                    }
                    if two {
                        let ka = find_known(m1.known, photos@[wa].path@, 0);
                        let kb = find_known(m1.known, photos@[wb].path@, 0);
                        lemma_find_known(m1.known, photos@[wa].path@, 0);
                        lemma_find_known(m1.known, photos@[wb].path@, 0);
                        lemma_two_known_two_entries(m1, ka, kb);
                        let rest = m1.entries.remove(i);
                        assert(rest.len() > 0);
                        assert forall|g: int| is_front(m2.entries, g) implies #[trigger] m2.entries[g].path@ != plan@.last()@ by {
                            assert(g != m2.entries.len() - 1);
                            assert(m2.entries[g] == m2.entries.drop_last()[g]);
                            let g0 = if g < i { g } else { g + 1 };
                            assert(m2.entries[g] == m1.entries[g0]);
                            assert(live(m1.known, m1.entries[g0]));
                            if g0 < i {
                                assert(m1.entries[g0].path@ != m1.entries[i].path@);
                            } else {
                                assert(m1.entries[i].path@ != m1.entries[g0].path@);
                            }
                        }
                        assert forall|j: int| 0 <= j < plan.len() - 1 implies #[trigger] plan@[j]@ != plan@[j + 1]@ by {
                            if j + 1 < prev.len() {
                                assert(plan@[j] == prev[j]);
                                assert(plan@[j + 1] == prev[j + 1]);
                            } else {
                                assert(plan@[j] == prev.last());
                                assert(plan@[j + 1]@ == m1.entries[f].path@);
                            }
                        }
                    }
                }
            },
            None => {
                proof {
                    if photos.len() > 0 {
                        assert(is_known(m0.known, photos@[0].path@));
                        lemma_find_known(m0.known, photos@[0].path@, 0);
                    }
                }
                break ;
            },
        }
        k = k + 1;
    }
    proof {
        let pp = plan_paths(plan@);
        assert forall|j: int| 0 <= j < pp.len() implies #[trigger] showing(s, ms[j], ms[j + 1], pp[j]) by {
            assert(pp[j] == plan@[j]@);
        }
        assert(ms.len() == pp.len() + 1);
    }
    proof {
        if forall|a: int| 0 <= a < photos.len() ==> #[trigger] photos@[a].path@ == photos@[0].path@ {
            assert forall|j: int| 0 <= j < plan.len() implies #[trigger] plan@[j]@ == photos@[0].path@ by {
                assert(is_photo_path(photos@, plan@[j]@));
            }
        }
    }
    plan
}

impl<S: GapSampler> PlaylistState<S> {
    /// Number of photos in the inventory.
    pub fn inventory_len(&self) -> (n: usize)
        ensures
            n == self@.known.len(),
    {
        self.known.len()
    }

    /// Where a known photo's creation time came from.
    pub fn created_source(&self, path: &str) -> (r: Option<CreatedSource>)
        ensures
            r == (if is_known(self@.known, path@) {
                Some(meta_of(self@.known, path@).created_source)
            } else {
                None
            }),
    {
        let ki = self.known_index(path);
        if ki < self.known.len() {
            Some(self.known[ki].meta.created_source)
        } else {
            None
        }
    }
}
} // verus!
