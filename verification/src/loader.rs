//! Ordering of decoded photos: results that finish out of order are released
//! in request order, and an immediate repeat of the last photo sent is held
//! back once so that the viewer does not show the same photo twice in a row.
use vstd::prelude::*;
use std::collections::BTreeMap;
use crate::events::PhotoLoaded;

verus! {

broadcast use vstd::std_specs::btree::group_btree_axioms, vstd::laws_cmp::group_laws_cmp;

/// Buffers results by request sequence number and releases them in order.
/// A `None` slot marks a failed decode, so release can move past it.
pub struct ReorderBuffer<T> {
    next_emit: u64,
    slots: BTreeMap<u64, Option<T>>,
}

/// The values of the present (`Some`) slots with keys in `from .. to`, in key order.
pub open spec fn ready_in<T>(slots: Map<u64, Option<T>>, from: int, to: int) -> Seq<T>
    decreases to - from,
{
    if to <= from {
        Seq::empty()
    } else {
        let prev = ready_in(slots, from, to - 1);
        match slots[(to - 1) as u64] {
            Some(v) => prev.push(v),
            None => prev,
        }
    }
}

/// Every key in `from .. to` has a slot.
pub open spec fn all_filled<T>(slots: Map<u64, Option<T>>, from: int, to: int) -> bool {
    forall|k: u64| from <= k < to ==> #[trigger] slots.contains_key(k)
}

/// `slots` without the keys `from .. to`.
pub open spec fn without_range<T>(slots: Map<u64, Option<T>>, from: int, to: int) -> Map<u64, Option<T>> {
    slots.restrict(slots.dom().filter(|k: u64| !(from <= k < to)))
}

impl<T> ReorderBuffer<T> {
    /// Next sequence number to release.
    pub closed spec fn next_emit_spec(&self) -> u64 {
        self.next_emit
    }

    /// Buffered results by sequence number.
    pub closed spec fn slots_spec(&self) -> Map<u64, Option<T>> {
        self.slots@
    }

    pub fn new() -> (b: Self)
        ensures
            b.next_emit_spec() == 0,
            b.slots_spec() == Map::<u64, Option<T>>::empty(),
    {
        ReorderBuffer { next_emit: 0, slots: BTreeMap::new() }
    }

    pub fn next_emit(&self) -> (n: u64)
        ensures
            n == self.next_emit_spec(),
    {
        self.next_emit
    }

    /// Stores the result of request `seq` (`None` for a failed decode).
    pub fn insert(&mut self, seq: u64, slot: Option<T>)
        ensures
            final(self).next_emit_spec() == old(self).next_emit_spec(),
            final(self).slots_spec() == old(self).slots_spec().insert(seq, slot),
    {
        self.slots.insert(seq, slot);
    }

    /// Removes and returns the next contiguous run of results in request
    /// order, skipping failed slots; stops at the first missing sequence number.
    pub fn drain_ready(&mut self) -> (out: Vec<T>)
        requires
            !old(self).slots_spec().contains_key(u64::MAX),
        ensures
            ({
                let from = old(self).next_emit_spec() as int;
                let to = final(self).next_emit_spec() as int;
                &&& from <= to
                &&& all_filled(old(self).slots_spec(), from, to)
                &&& !old(self).slots_spec().contains_key(to as u64)
                &&& out@ == ready_in(old(self).slots_spec(), from, to)
                &&& final(self).slots_spec() == without_range(old(self).slots_spec(), from, to)
            }),
    {
        let ghost start = self.next_emit as int;
        let ghost orig = self.slots@;
        let mut out: Vec<T> = Vec::new();
        loop
            invariant
                start <= self.next_emit,
                all_filled(orig, start, self.next_emit as int),
                out@ == ready_in(orig, start, self.next_emit as int),
                self.slots@ == without_range(orig, start, self.next_emit as int),
                !orig.contains_key(u64::MAX),
            ensures
                start <= self.next_emit,
                all_filled(orig, start, self.next_emit as int),
                !orig.contains_key(self.next_emit),
                out@ == ready_in(orig, start, self.next_emit as int),
                self.slots@ == without_range(orig, start, self.next_emit as int),
            decreases u64::MAX - self.next_emit,
        {
            let key = self.next_emit;
            match self.slots.remove(&key) {
                Some(slot) => {
                    proof {
                        assert(orig.contains_key(key));
                        assert(orig[key] == slot);
                    }
                    self.next_emit = key + 1;
                    proof {
                        assert(self.slots@ =~= without_range(orig, start, self.next_emit as int));
                        assert(ready_in(orig, start, self.next_emit as int) == match orig[key] {
                            Some(v) => ready_in(orig, start, key as int).push(v),
                            None => ready_in(orig, start, key as int),
                        });
                    }
                    if let Some(ready) = slot {
                        out.push(ready);
                    }
                },
                None => {
                    proof {
                        assert(!without_range(orig, start, key as int).contains_key(key));
                    }
                    break ;
                },
            }
        }
        out
    }
}

/// A request's result is released by the first drain after every earlier
/// request has a result: a drain at `next_emit` releases exactly the values of
/// the filled run that starts there.
pub proof fn lemma_drain_releases_in_order<T>(slots: Map<u64, Option<T>>, from: int, to: int, k: int)
    requires
        from <= k < to,
        all_filled(slots, from, to),
    ensures
        ready_in(slots, from, to) == ready_in(slots, from, k) + ready_in(slots, k, to),
    decreases to - k,
{
    if k < to - 1 {
        lemma_drain_releases_in_order(slots, from, to - 1, k);
    }
    assert(ready_in(slots, k, k) =~= Seq::<T>::empty());
    if k == to - 1 {
        assert(ready_in(slots, from, k) + ready_in(slots, k, k) =~= ready_in(slots, from, k));
    }
}

/// A decoded photo ready to be sent, with its path.
#[derive(Debug, Clone)]
pub struct ReadyPhoto {
    pub path: String,
    pub event: PhotoLoaded,
}

/// Remembers the last path sent and at most one photo held back because it
/// would have repeated that path.
pub struct RepeatGuard {
    pub last_sent: Option<String>,
    pub pending: Option<ReadyPhoto>,
}

/// The path of an optional string, as characters.
pub open spec fn opt_path(p: Option<String>) -> Option<Seq<char>> {
    match p {
        Some(s) => Some(s@),
        None => None,
    }
}

/// What sending `ready` does: the photos to send, in order, and the new state.
pub open spec fn send_ready_spec(last: Option<Seq<char>>, pending: Option<ReadyPhoto>, ready: ReadyPhoto) -> (Seq<ReadyPhoto>, Option<Seq<char>>, Option<ReadyPhoto>) {
    if last == Some(ready.path@) {
        match pending {
            None => (Seq::empty(), last, Some(ready)),
            Some(_) => (seq![ready], Some(ready.path@), pending),
        }
    } else {
        match pending {
            None => (seq![ready], Some(ready.path@), None),
            Some(q) => if q.path@ == ready.path@ {
                (seq![ready], Some(ready.path@), Some(q))
            } else {
                (seq![ready, q], Some(q.path@), None)
            },
        }
    }
}

impl RepeatGuard {
    pub fn new() -> (g: Self)
        ensures
            g.last_sent is None,
            g.pending is None,
    {
        RepeatGuard { last_sent: None, pending: None }
    }

    fn is_last_sent(&self, path: &String) -> (b: bool)
        ensures
            b == (opt_path(self.last_sent) == Some(path@)),
    {
        match &self.last_sent {
            Some(last) => crate::text::str_equal(last.as_str(), path.as_str()),
            None => false,
        }
    }

    /// Sends `ready` unless it repeats the last photo sent, in which case it is
    /// held back (once) and a held photo goes out first when it can.
    pub fn send_ready(&mut self, ready: ReadyPhoto) -> (out: Vec<PhotoLoaded>)
        ensures
            ({
                let (sent, last, pending) = send_ready_spec(opt_path(old(self).last_sent), old(self).pending, ready);
                &&& out@ == sent.map_values(|r: ReadyPhoto| r.event)
                &&& opt_path(final(self).last_sent) == last
                &&& final(self).pending == pending
            }),
    {
        let mut out: Vec<PhotoLoaded> = Vec::new();
        if self.is_last_sent(&ready.path) {
            if self.pending.is_none() {
                self.pending = Some(ready);
            } else {
                let ReadyPhoto { path, event } = ready;
                out.push(event);
                self.last_sent = Some(path);
            }
            proof {
                let (sent, _, _) = send_ready_spec(opt_path(old(self).last_sent), old(self).pending, ready);
                assert(out@ =~= sent.map_values(|r: ReadyPhoto| r.event));
            }
            return out;
        }
        let ReadyPhoto { path, event } = ready;
        out.push(event);
        self.last_sent = Some(path);
        let held = self.pending.take();
        match held {
            None => {},
            Some(q) => {
                if self.is_last_sent(&q.path) {
                    self.pending = Some(q);
                } else {
                    let ReadyPhoto { path, event } = q;
                    out.push(event);
                    self.last_sent = Some(path);
                }
            },
        }
        proof {
            let (sent, _, _) = send_ready_spec(opt_path(old(self).last_sent), old(self).pending, ready);
            assert(out@ =~= sent.map_values(|r: ReadyPhoto| r.event));
        }
        out
    }

    /// Sends the held photo, if any.
    pub fn flush_pending(&mut self) -> (out: Option<PhotoLoaded>)
        ensures
            match old(self).pending {
                Some(q) => out == Some(q.event) && opt_path(final(self).last_sent) == Some(q.path@)
                    && final(self).pending is None,
                None => out is None && final(self).last_sent == old(self).last_sent
                    && final(self).pending is None,
            },
    {
        match self.pending.take() {
            Some(q) => {
                let ReadyPhoto { path, event } = q;
                self.last_sent = Some(path);
                Some(event)
            },
            None => None,
        }
    }
}

proof fn lemma_swap_pair(a: ReadyPhoto, b: ReadyPhoto)
    ensures
        seq![a, b].to_multiset() =~= seq![b, a].to_multiset(),
{
    vstd::seq_lib::lemma_multiset_commutative(seq![a], seq![b]);
    vstd::seq_lib::lemma_multiset_commutative(seq![b], seq![a]);
    assert(seq![a] + seq![b] =~= seq![a, b]);
    assert(seq![b] + seq![a] =~= seq![b, a]);
}

/// Nothing is lost or duplicated: what is sent plus what is held equals what
/// was held plus the new photo; and a photo repeating the last path is sent
/// only when another photo was already held.
pub proof fn lemma_send_ready_conserves(last: Option<Seq<char>>, pending: Option<ReadyPhoto>, ready: ReadyPhoto)
    ensures
        ({
            let (sent, _, held) = send_ready_spec(last, pending, ready);
            let before = match pending {
                Some(q) => seq![q, ready],
                None => seq![ready],
            };
            let after = match held {
                Some(h) => sent.push(h),
                None => sent,
            };
            &&& after.to_multiset() == before.to_multiset()
            &&& (sent.len() > 0 && last == Some(sent[0].path@) ==> pending is Some)
            &&& sent.len() <= 2
        }),
{
    let (sent, _, held) = send_ready_spec(last, pending, ready);
    match pending {
        Some(q) => {
            if last == Some(ready.path@) {
                assert(sent.push(q) =~= seq![ready, q]);
                lemma_swap_pair(ready, q);
            } else if q.path@ == ready.path@ {
                assert(sent.push(q) =~= seq![ready, q]);
                lemma_swap_pair(ready, q);
            } else {
                lemma_swap_pair(ready, q);
            }
        },
        None => {},
    }
}

/// The paths held in `v`, as a set.
pub open spec fn path_set(v: Seq<String>) -> Set<Seq<char>> {
    Set::new(|p: Seq<char>| exists|i: int| 0 <= i < v.len() && #[trigger] v[i]@ == p)
}

fn find_path(v: &Vec<String>, path: &str) -> (r: Option<usize>)
    ensures
        match r {
            Some(i) => i < v@.len() && v@[i as int]@ == path@,
            None => !path_set(v@).contains(path@),
        },
{
    let mut i: usize = 0;
    while i < v.len()
        invariant
            0 <= i <= v@.len(),
            forall|j: int| 0 <= j < i ==> v@[j]@ != path@,
        decreases v.len() - i,
    {
        if crate::text::str_equal(v[i].as_str(), path) {
            return Some(i);
        }
        i = i + 1;
    }
    None
}

/// Removes `path` from `v`, where it occurs at most once.
fn remove_path(v: &mut Vec<String>, path: &str) -> (found: bool)
    requires
        no_duplicate_paths(old(v)@),
    ensures
        found == path_set(old(v)@).contains(path@),
        path_set(final(v)@) == path_set(old(v)@).remove(path@),
        no_duplicate_paths(final(v)@),
{
    match find_path(v, path) {
        Some(i) => {
            let ghost before = v@;
            v.remove(i);
            proof {
                assert(path_set(before).contains(path@)) by {
                    assert(before[i as int]@ == path@);
                }
                assert forall|p: Seq<char>| path_set(v@).contains(p) <==> path_set(before).remove(path@).contains(p) by {
                    if path_set(v@).contains(p) {
                        let j = choose|j: int| 0 <= j < v@.len() && #[trigger] v@[j]@ == p;
                        if j < i {
                            assert(before[j]@ == p);
                        } else {
                            assert(before[j + 1]@ == p);
                        }
                        assert(p != path@);
                    }
                    if path_set(before).remove(path@).contains(p) {
                        let j = choose|j: int| 0 <= j < before.len() && #[trigger] before[j]@ == p;
                        assert(j != i);
                        if j < i {
                            assert(v@[j]@ == p);
                        } else {
                            assert(v@[j - 1]@ == p);
                        }
                    }
                }
                assert(path_set(v@) =~= path_set(before).remove(path@));
            }
            true
        },
        None => {
            proof {
                assert(path_set(v@) =~= path_set(v@).remove(path@));
            }
            false
        },
    }
}

/// No path occurs twice.
pub open spec fn no_duplicate_paths(v: Seq<String>) -> bool {
    forall|i: int, j: int| 0 <= i < j < v.len() ==> v[i]@ != v[j]@
}

/// Adds `path` to `v` unless it is there; reports whether it was added.
fn insert_path(v: &mut Vec<String>, path: &str) -> (added: bool)
    requires
        no_duplicate_paths(old(v)@),
    ensures
        added == !path_set(old(v)@).contains(path@),
        path_set(final(v)@) == path_set(old(v)@).insert(path@),
        no_duplicate_paths(final(v)@),
{
    match find_path(v, path) {
        Some(i) => {
            proof {
                assert(path_set(v@).contains(path@)) by {
                    assert(v@[i as int]@ == path@);
                }
                assert(path_set(v@) =~= path_set(v@).insert(path@));
            }
            false
        },
        None => {
            let ghost before = v@;
            let owned = crate::text::string_from_chars(crate::text::chars_of(path).as_slice());
            v.push(owned);
            proof {
                assert(v@[before.len() as int]@ == path@);
                assert forall|p: Seq<char>| path_set(v@).contains(p) <==> path_set(before).insert(path@).contains(p) by {
                    if path_set(v@).contains(p) {
                        let j = choose|j: int| 0 <= j < v@.len() && #[trigger] v@[j]@ == p;
                        if j < before.len() {
                            assert(before[j]@ == p);
                        }
                    }
                    if path_set(before).contains(p) {
                        let j = choose|j: int| 0 <= j < before.len() && #[trigger] before[j]@ == p;
                        assert(v@[j]@ == p);
                    }
                }
                assert(path_set(v@) =~= path_set(before).insert(path@));
                assert forall|a: int, b: int| 0 <= a < b < v@.len() implies v@[a]@ != v@[b]@ by {
                    if b == before.len() {
                        assert(before[a]@ != path@) by {
                            if before[a]@ == path@ {
                                assert(path_set(before).contains(path@));
                            }
                        }
                    }
                }
            }
            true
        },
    }
}

/// The loader's bookkeeping of decodes under way: the paths being decoded, the
/// paths asked for with priority, and the next request sequence number.
pub struct LoaderWindow {
    pub next_seq: u64,
    pub in_flight: Vec<String>,
    pub priority: Vec<String>,
    pub max_in_flight: u64,
}

impl LoaderWindow {
    /// The sets are free of duplicates.
    pub open spec fn wf(&self) -> bool {
        no_duplicate_paths(self.in_flight@) && no_duplicate_paths(self.priority@)
    }

    /// Nothing under way, with room for `max_in_flight` outstanding photos.
    pub fn new(max_in_flight: u64) -> (w: Self)
        ensures
            w.wf(),
            w.next_seq == 0,
            path_set(w.in_flight@) == Set::<Seq<char>>::empty(),
            path_set(w.priority@) == Set::<Seq<char>>::empty(),
            w.max_in_flight == max_in_flight,
    {
        let w = LoaderWindow { next_seq: 0, in_flight: Vec::new(), priority: Vec::new(), max_in_flight };
        assert(path_set(w.in_flight@) =~= Set::<Seq<char>>::empty());
        assert(path_set(w.priority@) =~= Set::<Seq<char>>::empty());
        w
    }

    /// Whether another request may be taken: fewer than `max_in_flight`
    /// photos are requested and not yet released (`next_emit` is the next
    /// sequence number to be released).
    pub fn can_accept(&self, next_emit: u64) -> (b: bool)
        ensures
            b == ((if self.next_seq >= next_emit {
                self.next_seq - next_emit
            } else {
                0
            }) < self.max_in_flight),
    {
        let outstanding = if self.next_seq >= next_emit {
            self.next_seq - next_emit
        } else {
            0
        };
        outstanding < self.max_in_flight
    }

    /// A request for `path`: a priority request is remembered; a path not
    /// already being decoded gets the next sequence number, to decode under.
    pub fn request(&mut self, path: &str, priority: bool) -> (r: Option<u64>)
        requires
            old(self).wf(),
            old(self).next_seq < u64::MAX,
        ensures
            final(self).wf(),
            final(self).max_in_flight == old(self).max_in_flight,
            path_set(final(self).priority@) == (if priority {
                path_set(old(self).priority@).insert(path@)
            } else {
                path_set(old(self).priority@)
            }),
            path_set(final(self).in_flight@) == path_set(old(self).in_flight@).insert(path@),
            !path_set(old(self).in_flight@).contains(path@) ==> r == Some(old(self).next_seq)
                && final(self).next_seq == old(self).next_seq + 1,
            path_set(old(self).in_flight@).contains(path@) ==> r is None && final(self).next_seq
                == old(self).next_seq,
    {
        if priority {
            insert_path(&mut self.priority, path);
        }
        if insert_path(&mut self.in_flight, path) {
            let seq = self.next_seq;
            self.next_seq = self.next_seq + 1;
            Some(seq)
        } else {
            None
        }
    }

    /// The decode of `path` finished; reports whether it had priority.
    pub fn finished(&mut self, path: &str) -> (priority: bool)
        requires
            old(self).wf(),
        ensures
            final(self).wf(),
            priority == path_set(old(self).priority@).contains(path@),
            path_set(final(self).priority@) == path_set(old(self).priority@).remove(path@),
            path_set(final(self).in_flight@) == path_set(old(self).in_flight@).remove(path@),
            final(self).next_seq == old(self).next_seq,
            final(self).max_in_flight == old(self).max_in_flight,
    {
        remove_path(&mut self.in_flight, path);
        remove_path(&mut self.priority, path)
    }

    /// Whether nothing is being decoded.
    pub fn is_idle(&self) -> (b: bool)
        ensures
            b == (self.in_flight@.len() == 0),
    {
        self.in_flight.len() == 0
    }
}

} // verus!
