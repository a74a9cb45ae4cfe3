//! Debounced queue of pending synchronisations and deletions, keyed by path,
//! with per-path deadlines (milliseconds on the worker's clock) and a capacity limit.

use vstd::prelude::*;
use crate::keyed::{Entry, keys_of, entries_map, lemma_entries_map_at, lemma_entries_map_dom, lemma_entries_map_len, lemma_remove_at, find_key, upsert, remove_key};

verus! {

/// `d` is the earliest deadline among `a` and `b` (`None` when both are empty).
pub open spec fn is_earliest(d: Option<u64>, a: Map<Seq<char>, u64>, b: Map<Seq<char>, u64>) -> bool {
    match d {
        None => a.dom().is_empty() && b.dom().is_empty(),
        Some(x) => {
            &&& ((exists|p: Seq<char>| a.dom().contains(p) && a[p] == x) || (exists|p: Seq<char>|
                b.dom().contains(p) && b[p] == x))
            &&& forall|p: Seq<char>| a.dom().contains(p) ==> x <= #[trigger] a[p]
            &&& forall|p: Seq<char>| b.dom().contains(p) ==> x <= #[trigger] b[p]
        },
    }
}

/// Position of an entry with the smallest deadline in `v`, if any.
fn min_index(v: &Vec<Entry<u64>>) -> (r: Option<usize>)
    ensures
        match r {
            None => v@.len() == 0,
            Some(i) => i < v@.len() && forall|k: int|
                0 <= k < v@.len() ==> v@[i as int].value <= #[trigger] v@[k].value,
        },
{
    if v.len() == 0 {
        return None;
    }
    let mut best: usize = 0;
    let mut i: usize = 1;
    while i < v.len()
        invariant
            1 <= i <= v@.len(),
            best < v@.len(),
            forall|k: int| 0 <= k < i ==> v@[best as int].value <= #[trigger] v@[k].value,
        decreases v@.len() - i,
    {
        if v[i].value < v[best].value {
            best = i;
        }
        i += 1;
    }
    Some(best)
}

/// Smallest deadline in `v`, if any.
fn min_deadline(v: &Vec<Entry<u64>>) -> (r: Option<u64>)
    ensures
        match r {
            None => v@.len() == 0,
            Some(d) => (exists|i: int| 0 <= i < v@.len() && v@[i].value == d) && forall|i: int|
                0 <= i < v@.len() ==> d <= #[trigger] v@[i].value,
        },
{
    match min_index(v) {
        None => None,
        Some(i) => Some(v[i].value),
    }
}

/// The paths, as character sequences, of a sequence of strings.
pub open spec fn string_views(s: Seq<String>) -> Seq<Seq<char>> {
    s.map_values(|x: String| x@)
}

/// `out` lists, without repetition and by non-decreasing deadline, exactly the paths of
/// `before` whose deadline is at most `now`; `after` keeps the other entries unchanged.
pub open spec fn drained_exactly(
    before: Map<Seq<char>, u64>,
    after: Map<Seq<char>, u64>,
    out: Seq<Seq<char>>,
    now: u64,
) -> bool {
    &&& forall|p: Seq<char>| #[trigger] after.dom().contains(p) <==> (before.dom().contains(p) && before[p] > now)
    &&& forall|p: Seq<char>| #[trigger] after.dom().contains(p) ==> after[p] == before[p]
    &&& forall|p: Seq<char>| #[trigger] out.contains(p) <==> (before.dom().contains(p) && before[p] <= now)
    &&& out.no_duplicates()
    &&& forall|a: int, b: int| 0 <= a < b < out.len() ==> before[#[trigger] out[a]] <= before[#[trigger] out[b]]
}

/// Debouncing: a path enqueued with deadline `deadline` is handed out by a drain at `t`
/// exactly when `t` has reached the deadline; it then leaves the queue, and otherwise it
/// stays with its deadline unchanged.
pub proof fn lemma_enqueued_path_drains_at_deadline(
    before: Map<Seq<char>, u64>,
    p: Seq<char>,
    deadline: u64,
    after: Map<Seq<char>, u64>,
    out: Seq<Seq<char>>,
    t: u64,
)
    requires
        drained_exactly(before.insert(p, deadline), after, out, t),
    ensures
        out.contains(p) <==> deadline <= t,
        out.contains(p) ==> !after.dom().contains(p),
        !out.contains(p) ==> after.dom().contains(p) && after[p] == deadline,
{
    let m = before.insert(p, deadline);
    assert(m.dom().contains(p) && m[p] == deadline);
    assert(out.contains(p) <==> (m.dom().contains(p) && m[p] <= t));
    assert(after.dom().contains(p) <==> (m.dom().contains(p) && m[p] > t));
}

/// A path handed out by one drain is not handed out by the next one unless it was
/// enqueued again in between.
pub proof fn lemma_drained_once(
    m: Map<Seq<char>, u64>,
    a1: Map<Seq<char>, u64>,
    o1: Seq<Seq<char>>,
    t1: u64,
    a2: Map<Seq<char>, u64>,
    o2: Seq<Seq<char>>,
    t2: u64,
)
    requires
        drained_exactly(m, a1, o1, t1),
        drained_exactly(a1, a2, o2, t2),
    ensures
        forall|p: Seq<char>| #[trigger] o1.contains(p) ==> !o2.contains(p),
{
    assert forall|p: Seq<char>| #[trigger] o1.contains(p) implies !o2.contains(p) by {
        assert(!a1.dom().contains(p));
    }
}

proof fn lemma_drain_done(m: Map<Seq<char>, u64>, after: Map<Seq<char>, u64>, out: Seq<Seq<char>>, now: u64)
    requires
        forall|q: Seq<char>| #[trigger] after.dom().contains(q) <==> (m.dom().contains(q) && !out.contains(q)),
        forall|q: Seq<char>| #[trigger] after.dom().contains(q) ==> after[q] == m[q] && m[q] > now,
        forall|k: int| 0 <= k < out.len() ==> m.dom().contains(#[trigger] out[k]) && m[out[k]] <= now,
        out.no_duplicates(),
        forall|a: int, b: int| 0 <= a < b < out.len() ==> m[#[trigger] out[a]] <= m[#[trigger] out[b]],
    ensures
        drained_exactly(m, after, out, now),
{
    assert forall|p: Seq<char>| #[trigger] out.contains(p) implies (m.dom().contains(p) && m[p] <= now) by {
        let k = choose|k: int| 0 <= k < out.len() && out[k] == p;
        assert(m.dom().contains(out[k]));
    }
    assert forall|p: Seq<char>| (m.dom().contains(p) && m[p] <= now) implies #[trigger] out.contains(p) by {
        if !out.contains(p) {
            assert(after.dom().contains(p));
        }
    }
    assert forall|p: Seq<char>| #[trigger] after.dom().contains(p) <==> (m.dom().contains(p) && m[p] > now) by {
        if m.dom().contains(p) && m[p] > now && out.contains(p) {
            let k = choose|k: int| 0 <= k < out.len() && out[k] == p;
            assert(m.dom().contains(out[k]) && m[out[k]] <= now);
        }
    }
}

/// Removes from `v` every entry whose deadline is at most `now` and returns their
/// paths by non-decreasing deadline.
fn drain_due(v: &mut Vec<Entry<u64>>, now: u64) -> (r: Vec<String>)
    requires
        keys_of(old(v)@).no_duplicates(),
    ensures
        keys_of(final(v)@).no_duplicates(),
        drained_exactly(entries_map(old(v)@), entries_map(final(v)@), string_views(r@), now),
{
    let ghost m = entries_map(v@);
    let mut ready: Vec<String> = Vec::new();
    loop
        invariant
            m == entries_map(old(v)@),
            keys_of(v@).no_duplicates(),
            forall|q: Seq<char>| #[trigger] entries_map(v@).dom().contains(q) <==> (m.dom().contains(q)
                && !string_views(ready@).contains(q)),
            forall|q: Seq<char>| #[trigger] entries_map(v@).dom().contains(q) ==> entries_map(v@)[q] == m[q],
            forall|k: int| 0 <= k < ready@.len() ==> m.dom().contains(#[trigger] string_views(ready@)[k])
                && m[string_views(ready@)[k]] <= now,
            string_views(ready@).no_duplicates(),
            forall|a: int, b: int| 0 <= a < b < ready@.len() ==> m[#[trigger] string_views(ready@)[a]]
                <= m[#[trigger] string_views(ready@)[b]],
            forall|k: int, q: Seq<char>| 0 <= k < ready@.len() && #[trigger] entries_map(v@).dom().contains(q)
                ==> m[#[trigger] string_views(ready@)[k]] <= m[q],
        decreases v@.len(),
    {
        let i = match min_index(v) {
            None => {
                proof {
                    assert forall|q: Seq<char>| entries_map(v@).dom().contains(q) implies false by {
                        lemma_entries_map_dom(v@, q);
                    }
                    lemma_drain_done(m, entries_map(v@), string_views(ready@), now);
                }
                return ready;
            },
            Some(i) => i,
        };
        if v[i].value > now {
            proof {
                assert forall|q: Seq<char>| #[trigger] entries_map(v@).dom().contains(q) implies m[q] > now by {
                    lemma_entries_map_dom(v@, q);
                    let k = choose|k: int| 0 <= k < v@.len() && v@[k].key@ == q;
                    lemma_entries_map_at(v@, k);
                }
                lemma_drain_done(m, entries_map(v@), string_views(ready@), now);
            }
            return ready;
        }
        let ghost old_v = v@;
        let ghost old_ready = ready@;
        let ghost p = old_v[i as int].key@;
        proof {
            lemma_entries_map_at(old_v, i as int);
            assert forall|q: Seq<char>| #[trigger] entries_map(old_v).dom().contains(q) implies m[p] <= m[q] by {
                lemma_entries_map_dom(old_v, q);
                let k = choose|k: int| 0 <= k < old_v.len() && old_v[k].key@ == q;
                lemma_entries_map_at(old_v, k);
            }
        }
        let e = v.remove(i);
        proof {
            lemma_remove_at(old_v, v@, i as int);
        }
        ready.push(e.key);
        proof {
            assert(string_views(ready@) =~= string_views(old_ready).push(p));
            assert(string_views(ready@)[old_ready.len() as int] == p);
            assert forall|k: int| 0 <= k < old_ready.len() implies string_views(ready@)[k] == string_views(old_ready)[k] by {}
        }
    }
}

/// Manages pending sync and delete paths with per-path debounce deadlines and a capacity limit.
#[derive(Debug)]
pub struct DebounceQueue {
    syncs: Vec<Entry<u64>>,
    deletes: Vec<Entry<u64>>,
    max_capacity: usize,
    earliest: Option<u64>,
}

impl DebounceQueue {
    /// Paths pending synchronisation, with their deadlines.
    pub closed spec fn pending_syncs(&self) -> Map<Seq<char>, u64> {
        entries_map(self.syncs@)
    }

    /// Paths pending deletion, with their deadlines.
    pub closed spec fn pending_deletes(&self) -> Map<Seq<char>, u64> {
        entries_map(self.deletes@)
    }

    /// Maximum number of distinct pending paths admitted by `enqueue_*`.
    pub closed spec fn capacity(&self) -> nat {
        self.max_capacity as nat
    }

    /// Internal consistency of the queue.
    pub closed spec fn wf(&self) -> bool {
        &&& keys_of(self.syncs@).no_duplicates()
        &&& keys_of(self.deletes@).no_duplicates()
        &&& self.syncs@.len() + self.deletes@.len() <= usize::MAX
        &&& is_earliest(self.earliest, entries_map(self.syncs@), entries_map(self.deletes@))
    }

    /// The number of pending syncs and deletes.
    pub closed spec fn spec_pending_count(&self) -> nat {
        (self.syncs@.len() + self.deletes@.len()) as nat
    }

    /// The pending maps are finite and their sizes add up to the pending count.
    pub proof fn lemma_counts(&self)
        requires
            self.wf(),
        ensures
            self.pending_syncs().dom().finite(),
            self.pending_deletes().dom().finite(),
            self.spec_pending_count() == self.pending_syncs().dom().len()
                + self.pending_deletes().dom().len(),
            self.spec_pending_count() <= usize::MAX,
    {
        lemma_entries_map_len(self.syncs@);
        lemma_entries_map_len(self.deletes@);
    }

    fn refresh_earliest(&mut self)
        requires
            keys_of(old(self).syncs@).no_duplicates(),
            keys_of(old(self).deletes@).no_duplicates(),
            old(self).syncs@.len() + old(self).deletes@.len() <= usize::MAX,
        ensures
            final(self).wf(),
            final(self).syncs == old(self).syncs,
            final(self).deletes == old(self).deletes,
            final(self).max_capacity == old(self).max_capacity,
    {
        let a = min_deadline(&self.syncs);
        let b = min_deadline(&self.deletes);
        let r = match (a, b) {
            (Some(x), Some(y)) => if x <= y { Some(x) } else { Some(y) },
            (Some(x), None) => Some(x),
            (None, Some(y)) => Some(y),
            (None, None) => None,
        };
        self.earliest = r;
        proof {
            let s = self.syncs@;
            let d = self.deletes@;
            assert forall|p: Seq<char>| entries_map(s).dom().contains(p) implies (match r {
                Some(x) => x <= #[trigger] entries_map(s)[p],
                None => false,
            }) by {
                lemma_entries_map_dom(s, p);
                let k = choose|k: int| 0 <= k < s.len() && s[k].key@ == p;
                lemma_entries_map_at(s, k);
            }
            assert forall|p: Seq<char>| entries_map(d).dom().contains(p) implies (match r {
                Some(x) => x <= #[trigger] entries_map(d)[p],
                None => false,
            }) by {
                lemma_entries_map_dom(d, p);
                let k = choose|k: int| 0 <= k < d.len() && d[k].key@ == p;
                lemma_entries_map_at(d, k);
            }
            match r {
                Some(x) => {
                    if exists|k: int| 0 <= k < s.len() && s[k].value == x {
                        let k = choose|k: int| 0 <= k < s.len() && s[k].value == x;
                        lemma_entries_map_at(s, k);
                    } else {
                        let k = choose|k: int| 0 <= k < d.len() && d[k].value == x;
                        lemma_entries_map_at(d, k);
                    }
                },
                None => {
                    assert(entries_map(s).dom() =~= Set::empty());
                    assert(entries_map(d).dom() =~= Set::empty());
                },
            }
        }
    }

    /// Create an empty debounce queue admitting at most `max_capacity` distinct paths.
    pub fn new(max_capacity: usize) -> (q: Self)
        ensures
            q.wf(),
            q.pending_syncs() == Map::<Seq<char>, u64>::empty(),
            q.pending_deletes() == Map::<Seq<char>, u64>::empty(),
            q.capacity() == max_capacity,
            q.spec_pending_count() == 0,
    {
        let q = DebounceQueue { syncs: Vec::new(), deletes: Vec::new(), max_capacity, earliest: None };
        assert(entries_map(q.syncs@) =~= Map::<Seq<char>, u64>::empty());
        assert(entries_map(q.deletes@) =~= Map::<Seq<char>, u64>::empty());
        q
    }

    /// Enqueue `path` for synchronisation with deadline `now + debounce` (saturating),
    /// replacing any pending deletion of it. A path that is not yet pending is refused
    /// (returning `false`, queue unchanged) when the queue already holds `capacity` paths.
    pub fn enqueue_sync(&mut self, path: String, now: u64, debounce: u64) -> (accepted: bool)
        requires
            old(self).wf(),
        ensures
            final(self).wf(),
            final(self).capacity() == old(self).capacity(),
            accepted == (old(self).pending_syncs().dom().contains(path@)
                || old(self).pending_deletes().dom().contains(path@)
                || old(self).spec_pending_count() < old(self).capacity()),
            accepted ==> final(self).pending_syncs() == old(self).pending_syncs().insert(
                path@,
                now.saturating_add(debounce) as u64,
            ),
            accepted ==> final(self).pending_deletes() == old(self).pending_deletes().remove(path@),
            !accepted ==> final(self).pending_syncs() == old(self).pending_syncs()
                && final(self).pending_deletes() == old(self).pending_deletes(),
    {
        let in_syncs = find_key(&self.syncs, &path).is_some();
        let in_deletes = find_key(&self.deletes, &path).is_some();
        proof {
            lemma_entries_map_dom(self.syncs@, path@);
            lemma_entries_map_dom(self.deletes@, path@);
        }
        let count = self.syncs.len() + self.deletes.len();
        if !in_syncs && !in_deletes && count >= self.max_capacity {
            return false;
        }
        let deadline = now.saturating_add(debounce);
        remove_key(&mut self.deletes, &path);
        upsert(&mut self.syncs, path, deadline);
        self.refresh_earliest();
        true
    }

    /// Enqueue `path` for deletion with deadline `now + debounce` (saturating), replacing any
    /// pending synchronisation of it; refused under the same capacity rule as
    /// [`Self::enqueue_sync`].
    pub fn enqueue_delete(&mut self, path: String, now: u64, debounce: u64) -> (accepted: bool)
        requires
            old(self).wf(),
        ensures
            final(self).wf(),
            final(self).capacity() == old(self).capacity(),
            accepted == (old(self).pending_syncs().dom().contains(path@)
                || old(self).pending_deletes().dom().contains(path@)
                || old(self).spec_pending_count() < old(self).capacity()),
            accepted ==> final(self).pending_deletes() == old(self).pending_deletes().insert(
                path@,
                now.saturating_add(debounce) as u64,
            ),
            accepted ==> final(self).pending_syncs() == old(self).pending_syncs().remove(path@),
            !accepted ==> final(self).pending_syncs() == old(self).pending_syncs()
                && final(self).pending_deletes() == old(self).pending_deletes(),
    {
        let in_syncs = find_key(&self.syncs, &path).is_some();
        let in_deletes = find_key(&self.deletes, &path).is_some();
        proof {
            lemma_entries_map_dom(self.syncs@, path@);
            lemma_entries_map_dom(self.deletes@, path@);
        }
        let count = self.syncs.len() + self.deletes.len();
        if !in_syncs && !in_deletes && count >= self.max_capacity {
            return false;
        }
        let deadline = now.saturating_add(debounce);
        remove_key(&mut self.syncs, &path);
        upsert(&mut self.deletes, path, deadline);
        self.refresh_earliest();
        true
    }

    /// Re-enqueue a failed sync of `path` for retry at `now + delay` (saturating), regardless of capacity.
    pub fn requeue_sync_retry(&mut self, path: String, now: u64, delay: u64)
        requires
            old(self).wf(),
            old(self).pending_syncs().dom().contains(path@) || old(self).spec_pending_count() < usize::MAX,
        ensures
            final(self).wf(),
            final(self).capacity() == old(self).capacity(),
            final(self).pending_syncs() == old(self).pending_syncs().insert(
                path@,
                now.saturating_add(delay) as u64,
            ),
            final(self).pending_deletes() == old(self).pending_deletes(),
    {
        let deadline = now.saturating_add(delay);
        upsert(&mut self.syncs, path, deadline);
        self.refresh_earliest();
    }

    /// Re-enqueue a failed delete of `path` for retry at `now + delay` (saturating), regardless of capacity.
    pub fn requeue_delete_retry(&mut self, path: String, now: u64, delay: u64)
        requires
            old(self).wf(),
            old(self).pending_deletes().dom().contains(path@) || old(self).spec_pending_count() < usize::MAX,
        ensures
            final(self).wf(),
            final(self).capacity() == old(self).capacity(),
            final(self).pending_deletes() == old(self).pending_deletes().insert(
                path@,
                now.saturating_add(delay) as u64,
            ),
            final(self).pending_syncs() == old(self).pending_syncs(),
    {
        let deadline = now.saturating_add(delay);
        upsert(&mut self.deletes, path, deadline);
        self.refresh_earliest();
    }

    /// Removes and returns, by non-decreasing deadline, every path pending synchronisation
    /// whose deadline is at most `now`.
    pub fn drain_ready_syncs(&mut self, now: u64) -> (ready: Vec<String>)
        requires
            old(self).wf(),
        ensures
            final(self).wf(),
            final(self).capacity() == old(self).capacity(),
            drained_exactly(old(self).pending_syncs(), final(self).pending_syncs(), string_views(ready@), now),
            final(self).pending_deletes() == old(self).pending_deletes(),
    {
        let ready = drain_due(&mut self.syncs, now);
        proof {
            lemma_entries_map_len(old(self).syncs@);
            lemma_entries_map_len(self.syncs@);
            assert(entries_map(self.syncs@).dom().subset_of(entries_map(old(self).syncs@).dom()));
            vstd::set_lib::lemma_len_subset(entries_map(self.syncs@).dom(), entries_map(old(self).syncs@).dom());
        }
        self.refresh_earliest();
        ready
    }

    /// Removes and returns, by non-decreasing deadline, every path pending deletion
    /// whose deadline is at most `now`.
    pub fn drain_ready_deletes(&mut self, now: u64) -> (ready: Vec<String>)
        requires
            old(self).wf(),
        ensures
            final(self).wf(),
            final(self).capacity() == old(self).capacity(),
            drained_exactly(old(self).pending_deletes(), final(self).pending_deletes(), string_views(ready@), now),
            final(self).pending_syncs() == old(self).pending_syncs(),
    {
        let ready = drain_due(&mut self.deletes, now);
        proof {
            lemma_entries_map_len(old(self).deletes@);
            lemma_entries_map_len(self.deletes@);
            assert(entries_map(self.deletes@).dom().subset_of(entries_map(old(self).deletes@).dom()));
            vstd::set_lib::lemma_len_subset(entries_map(self.deletes@).dom(), entries_map(old(self).deletes@).dom());
        }
        self.refresh_earliest();
        ready
    }

    /// Earliest deadline across all pending syncs and deletes.
    pub fn earliest_deadline(&self) -> (r: Option<u64>)
        requires
            self.wf(),
        ensures
            is_earliest(r, self.pending_syncs(), self.pending_deletes()),
    {
        self.earliest
    }

    /// Whether nothing is pending.
    pub fn is_empty(&self) -> (r: bool)
        requires
            self.wf(),
        ensures
            r == (self.pending_syncs().dom().is_empty() && self.pending_deletes().dom().is_empty()),
    {
        proof {
            self.lemma_counts();
            if self.syncs@.len() > 0 {
                lemma_entries_map_at(self.syncs@, 0);
            }
            if self.deletes@.len() > 0 {
                lemma_entries_map_at(self.deletes@, 0);
            }
        }
        self.syncs.len() == 0 && self.deletes.len() == 0
    }

    /// Number of pending syncs.
    pub fn pending_sync_count(&self) -> (r: usize)
        requires
            self.wf(),
        ensures
            r == self.pending_syncs().dom().len(),
    {
        proof {
            lemma_entries_map_len(self.syncs@);
        }
        self.syncs.len()
    }

    /// Number of pending deletes.
    pub fn pending_delete_count(&self) -> (r: usize)
        requires
            self.wf(),
        ensures
            r == self.pending_deletes().dom().len(),
    {
        proof {
            lemma_entries_map_len(self.deletes@);
        }
        self.deletes.len()
    }

    /// Total number of pending syncs and deletes.
    pub fn pending_count(&self) -> (r: usize)
        requires
            self.wf(),
        ensures
            r == self.spec_pending_count(),
            r == self.pending_syncs().dom().len() + self.pending_deletes().dom().len(),
    {
        proof {
            self.lemma_counts();
        }
        self.syncs.len() + self.deletes.len()
    }

    /// Total number of pending operations (syncs plus deletes).
    pub fn len(&self) -> (r: usize)
        requires
            self.wf(),
        ensures
            r == self.pending_syncs().dom().len() + self.pending_deletes().dom().len(),
    {
        self.pending_count()
    }
}

} // verus!
