//! Bounded in-memory cache with usage accounting and age-based reclamation.
//!
//! Time is a monotonic clock reading in milliseconds, supplied by the caller.

use std::collections::VecDeque;
use vstd::prelude::*;

verus! {

broadcast use vstd::std_specs::vecdeque::group_vec_dequeue_axioms;

/// One mebibyte.
pub const MIB: u64 = 1048576;

/// An entry is reclaimed once its age exceeds one hour.
pub const RECLAIM_AGE_MS: u64 = 3600000;

/// Usage statistics of a cache.
#[derive(Clone, Copy, Debug, PartialEq, Eq)]
pub struct MemoryStats {
    pub allocated_bytes: usize,
    pub peak_allocated_bytes: usize,
    pub gc_runs: u64,
    pub last_gc_time: Option<u64>,
}

/// Configuration fixed when a cache is built.
#[derive(Clone, Copy, Debug)]
pub struct GcConfig {
    pub max_memory_mb: usize,
    pub gc_interval_seconds: u64,
    pub force_gc_threshold_mb: usize,
    pub enable_auto_gc: bool,
}

impl Default for GcConfig {
    fn default() -> (r: Self)
        ensures
            r.max_memory_mb == 512,
            r.gc_interval_seconds == 300,
            r.force_gc_threshold_mb == 256,
            r.enable_auto_gc,
    {
        GcConfig {
            max_memory_mb: 512,
            gc_interval_seconds: 300,
            force_gc_threshold_mb: 256,
            enable_auto_gc: true,
        }
    }
}

/// A cached payload with the time it was stored.
pub struct CacheEntry {
    pub key: String,
    pub data: Vec<u8>,
    pub inserted_at: u64,
}

/// Abstract entry: key, payload, insertion time.
pub type EntryModel = (Seq<char>, Seq<u8>, u64);

impl View for CacheEntry {
    type V = EntryModel;

    open spec fn view(&self) -> EntryModel {
        (self.key@, self.data@, self.inserted_at)
    }
}

/// Sum of the payload sizes of the entries.
pub open spec fn total_bytes(s: Seq<EntryModel>) -> nat
    decreases s.len(),
{
    if s.len() == 0 {
        0
    } else {
        total_bytes(s.drop_last()) + s.last().1.len()
    }
}

/// No two entries share a key.
pub open spec fn keys_unique(s: Seq<EntryModel>) -> bool {
    forall|i: int, j: int| 0 <= i < s.len() && 0 <= j < s.len() && i != j ==> s[i].0 != s[j].0
}

/// The position of the entry for `k`, or -1 if there is none.
pub open spec fn position_of(s: Seq<EntryModel>, k: Seq<char>) -> int
    decreases s.len(),
{
    if s.len() == 0 {
        -1
    } else if s.last().0 == k {
        s.len() - 1
    } else {
        position_of(s.drop_last(), k)
    }
}

/// The payload held for `k`, if any.
pub open spec fn lookup(s: Seq<EntryModel>, k: Seq<char>) -> Option<Seq<u8>> {
    if position_of(s, k) >= 0 {
        Some(s[position_of(s, k)].1)
    } else {
        None
    }
}

/// The size of the payload held for `k` (zero when there is none).
pub open spec fn size_for(s: Seq<EntryModel>, k: Seq<char>) -> nat {
    if position_of(s, k) >= 0 {
        s[position_of(s, k)].1.len()
    } else {
        0
    }
}

/// The entries without the one for `k`.
pub open spec fn without_key(s: Seq<EntryModel>, k: Seq<char>) -> Seq<EntryModel> {
    if position_of(s, k) >= 0 {
        s.remove(position_of(s, k))
    } else {
        s
    }
}

/// The entries after storing `d` under `k` at time `t`.
pub open spec fn put_model(s: Seq<EntryModel>, k: Seq<char>, d: Seq<u8>, t: u64) -> Seq<EntryModel> {
    without_key(s, k).push((k, d, t))
}

/// An entry is expired at `now` when its age exceeds the reclamation age.
pub open spec fn is_expired(e: EntryModel, now: u64) -> bool {
    now as int - e.2 as int > RECLAIM_AGE_MS as int
}

/// The entries that survive a reclamation pass at `now`, in order.
pub open spec fn fresh_entries(s: Seq<EntryModel>, now: u64) -> Seq<EntryModel>
    decreases s.len(),
{
    if s.len() == 0 {
        s
    } else if is_expired(s.last(), now) {
        fresh_entries(s.drop_last(), now)
    } else {
        fresh_entries(s.drop_last(), now).push(s.last())
    }
}

/// The bytes held by the entries that a reclamation pass at `now` removes.
pub open spec fn expired_bytes(s: Seq<EntryModel>, now: u64) -> nat
    decreases s.len(),
{
    if s.len() == 0 {
        0
    } else if is_expired(s.last(), now) {
        expired_bytes(s.drop_last(), now) + s.last().1.len()
    } else {
        expired_bytes(s.drop_last(), now)
    }
}

/// The larger of two counters.
pub open spec fn max_of(a: usize, b: usize) -> usize {
    if a > b {
        a
    } else {
        b
    }
}

/// `a - b`, or zero when `b` exceeds `a`.
pub open spec fn floor_sub(a: usize, b: usize) -> usize {
    if a >= b {
        (a - b) as usize
    } else {
        0
    }
}

/// The allocation counter after `released` bytes are replaced by `added`
/// bytes, kept within the range of `usize`.
pub open spec fn net_allocation(allocated: usize, released: usize, added: usize) -> usize {
    if floor_sub(allocated, released) + added > usize::MAX {
        usize::MAX
    } else {
        (floor_sub(allocated, released) + added) as usize
    }
}

/// The usage above which a scheduled tick runs a reclamation pass.
pub open spec fn threshold_bytes(c: GcConfig) -> int {
    c.force_gc_threshold_mb as int * MIB as int
}

/// Statistics after a reclamation pass that freed `freed` bytes at `now`.
pub open spec fn stats_after_pass(st: MemoryStats, freed: nat, now: u64) -> MemoryStats {
    MemoryStats {
        allocated_bytes: (if st.allocated_bytes >= freed { st.allocated_bytes - freed } else { 0 }) as usize,
        peak_allocated_bytes: st.peak_allocated_bytes,
        gc_runs: (st.gc_runs + 1) as u64,
        last_gc_time: Some(now),
    }
}

proof fn lemma_position_of(s: Seq<EntryModel>, k: Seq<char>)
    ensures
        position_of(s, k) == -1 || (0 <= position_of(s, k) < s.len() && s[position_of(s, k)].0
            == k),
        (forall|j: int| 0 <= j < s.len() ==> s[j].0 != k) ==> position_of(s, k) == -1,
        forall|j: int| 0 <= j < s.len() && s[j].0 == k && keys_unique(s) ==> position_of(s, k) == j,
    decreases s.len(),
{
    if s.len() > 0 {
        let d = s.drop_last();
        lemma_position_of(d, k);
        assert forall|j: int| 0 <= j < s.len() && s[j].0 == k && keys_unique(s) implies position_of(
            s,
            k,
        ) == j by {
            if j < s.len() - 1 {
                assert(d[j] == s[j]);
                assert(keys_unique(d));
            }
        }
    }
}

proof fn lemma_total_remove(s: Seq<EntryModel>, i: int)
    requires
        0 <= i < s.len(),
    ensures
        total_bytes(s.remove(i)) + s[i].1.len() == total_bytes(s),
    decreases s.len(),
{
    if i < s.len() - 1 {
        let d = s.drop_last();
        lemma_total_remove(d, i);
        assert(s.remove(i).drop_last() =~= d.remove(i));
        assert(s.remove(i).last() == s.last());
    } else {
        assert(s.remove(i) =~= s.drop_last());
    }
}

proof fn lemma_unique_remove(s: Seq<EntryModel>, i: int)
    requires
        0 <= i < s.len(),
        keys_unique(s),
    ensures
        keys_unique(s.remove(i)),
        forall|j: int| 0 <= j < s.remove(i).len() ==> s.remove(i)[j].0 != s[i].0,
{
    let r = s.remove(i);
    assert forall|a: int, b: int| 0 <= a < r.len() && 0 <= b < r.len() && a != b implies r[a].0
        != r[b].0 by {
        let sa = if a < i { a } else { a + 1 };
        let sb = if b < i { b } else { b + 1 };
        assert(r[a] == s[sa]);
        assert(r[b] == s[sb]);
    }
    assert forall|j: int| 0 <= j < r.len() implies r[j].0 != s[i].0 by {
        let sj = if j < i { j } else { j + 1 };
        assert(r[j] == s[sj]);
    }
}

proof fn lemma_without_key(s: Seq<EntryModel>, k: Seq<char>)
    requires
        keys_unique(s),
    ensures
        keys_unique(without_key(s, k)),
        forall|j: int| 0 <= j < without_key(s, k).len() ==> without_key(s, k)[j].0 != k,
        total_bytes(without_key(s, k)) + size_for(s, k) == total_bytes(s),
{
    lemma_position_of(s, k);
    let p = position_of(s, k);
    if p >= 0 {
        lemma_unique_remove(s, p);
        lemma_total_remove(s, p);
    }
}

proof fn lemma_put_model(s: Seq<EntryModel>, k: Seq<char>, d: Seq<u8>, t: u64)
    requires
        keys_unique(s),
    ensures
        keys_unique(put_model(s, k, d, t)),
        total_bytes(put_model(s, k, d, t)) + size_for(s, k) == total_bytes(s) + d.len(),
        lookup(put_model(s, k, d, t), k) == Some(d),
{
    lemma_without_key(s, k);
    let w = without_key(s, k);
    let r = put_model(s, k, d, t);
    assert(r.drop_last() =~= w);
    assert(keys_unique(r)) by {
        assert forall|a: int, b: int| 0 <= a < r.len() && 0 <= b < r.len() && a != b implies r[a].0
            != r[b].0 by {
            if a < w.len() && b < w.len() {
                assert(r[a] == w[a] && r[b] == w[b]);
            } else if a < w.len() {
                assert(r[a] == w[a]);
            } else {
                assert(r[b] == w[b]);
            }
        }
    }
    lemma_position_of(r, k);
}

proof fn lemma_fresh_split(s: Seq<EntryModel>, now: u64)
    ensures
        keys_unique(s) ==> keys_unique(fresh_entries(s, now)),
        total_bytes(fresh_entries(s, now)) + expired_bytes(s, now) == total_bytes(s),
        forall|j: int|
            0 <= j < fresh_entries(s, now).len() ==> s.contains(#[trigger] fresh_entries(s, now)[j]),
        forall|j: int|
            0 <= j < fresh_entries(s, now).len() ==> !is_expired(
                #[trigger] fresh_entries(s, now)[j],
                now,
            ),
    decreases s.len(),
{
    if s.len() > 0 {
        let d = s.drop_last();
        lemma_fresh_split(d, now);
        let f = fresh_entries(s, now);
        let fd = fresh_entries(d, now);
        if !is_expired(s.last(), now) {
            assert(f.drop_last() =~= fd);
            assert forall|j: int| 0 <= j < f.len() implies s.contains(#[trigger] f[j]) by {
                if j < fd.len() {
                    assert(f[j] == fd[j]);
                    let w = choose|w: int| 0 <= w < d.len() && d[w] == fd[j];
                    assert(s[w] == d[w]);
                } else {
                    assert(s[s.len() - 1] == f[j]);
                }
            }
            assert forall|j: int| 0 <= j < f.len() implies !is_expired(#[trigger] f[j], now) by {
                if j < fd.len() {
                    assert(f[j] == fd[j]);
                }
            }
            if keys_unique(s) {
                assert(keys_unique(d));
                assert forall|a: int, b: int|
                    0 <= a < f.len() && 0 <= b < f.len() && a != b implies f[a].0 != f[b].0 by {
                    if a < fd.len() && b < fd.len() {
                        assert(f[a] == fd[a] && f[b] == fd[b]);
                    } else if a < fd.len() {
                        assert(f[a] == fd[a]);
                        assert(d.contains(fd[a]));
                        let w = choose|w: int| 0 <= w < d.len() && d[w] == fd[a];
                        assert(s[w] == d[w]);
                    } else {
                        assert(f[b] == fd[b]);
                        assert(d.contains(fd[b]));
                        let w = choose|w: int| 0 <= w < d.len() && d[w] == fd[b];
                        assert(s[w] == d[w]);
                    }
                }
            }
        } else {
            assert forall|j: int| 0 <= j < f.len() implies s.contains(#[trigger] f[j]) by {
                let w = choose|w: int| 0 <= w < d.len() && d[w] == fd[j];
                assert(s[w] == d[w]);
            }
        }
    }
}

proof fn lemma_fresh_all(s: Seq<EntryModel>, now: u64)
    requires
        forall|j: int| 0 <= j < s.len() ==> !is_expired(#[trigger] s[j], now),
    ensures
        fresh_entries(s, now) == s,
        expired_bytes(s, now) == 0,
    decreases s.len(),
{
    if s.len() > 0 {
        let d = s.drop_last();
        assert forall|j: int| 0 <= j < d.len() implies !is_expired(#[trigger] d[j], now) by {
            assert(d[j] == s[j]);
        }
        lemma_fresh_all(d, now);
        assert(!is_expired(s[s.len() - 1], now));
        assert(d.push(s.last()) =~= s);
    }
}

proof fn lemma_total_prefix(s: Seq<EntryModel>, i: int)
    requires
        0 <= i < s.len(),
    ensures
        total_bytes(s.subrange(0, i + 1)) == total_bytes(s.subrange(0, i)) + s[i].1.len(),
{
    assert(s.subrange(0, i + 1).drop_last() =~= s.subrange(0, i));
}

proof fn lemma_total_prefix_le(s: Seq<EntryModel>, i: int)
    requires
        0 <= i <= s.len(),
    ensures
        total_bytes(s.subrange(0, i)) <= total_bytes(s),
    decreases s.len(),
{
    if i < s.len() {
        lemma_total_prefix_le(s.drop_last(), i);
        assert(s.drop_last().subrange(0, i) =~= s.subrange(0, i));
    } else {
        assert(s.subrange(0, i) =~= s);
    }
}

/// The abstract entries of a sequence of stored entries.
pub open spec fn entry_views(q: Seq<CacheEntry>) -> Seq<EntryModel> {
    Seq::new(q.len(), |i: int| q[i]@)
}

/// The entries of a cache, keyed by string, with the number of payload
/// bytes they hold.
pub struct CacheEntries {
    entries: VecDeque<CacheEntry>,
    held: usize,
}

impl CacheEntries {
    /// The entries held, in storage order.
    pub closed spec fn model(&self) -> Seq<EntryModel> {
        entry_views(self.entries@)
    }

    /// The number of payload bytes held, as counted.
    pub closed spec fn held_view(&self) -> usize {
        self.held
    }

    /// Keys are unique and the count of bytes held is their sum.
    pub open spec fn wf(&self) -> bool {
        &&& keys_unique(self.model())
        &&& self.held_view() as nat == total_bytes(self.model())
    }

    /// No entries.
    pub fn new() -> (r: Self)
        ensures
            r.wf(),
            r.model() == Seq::<EntryModel>::empty(),
    {
        let r = CacheEntries { entries: VecDeque::new(), held: 0 };
        assert(r.model() =~= Seq::<EntryModel>::empty());
        r
    }

    /// The number of payload bytes held.
    pub fn held_bytes(&self) -> (r: usize)
        ensures
            r == self.held_view(),
    {
        self.held
    }

    /// The position of the entry for `key`.
    fn find(&self, key: &str) -> (r: Option<usize>)
        requires
            self.wf(),
        ensures
            match r {
                Some(i) => i < self.model().len() && position_of(self.model(), key@) == i as int
                    && self.model()[i as int].0 == key@,
                None => position_of(self.model(), key@) == -1,
            },
    {
        proof {
            lemma_position_of(self.model(), key@);
        }
        let probe = key.to_owned();
        let n = self.entries.len();
        let mut i: usize = 0;
        while i < n
            invariant
                n == self.entries@.len(),
                probe@ == key@,
                self.wf(),
                0 <= i <= n,
                forall|j: int| 0 <= j < i ==> self.model()[j].0 != key@,
            decreases n - i,
        {
            if self.entries[i].key == probe {
                assert(self.model()[i as int] == self.entries@[i as int]@);
                proof {
                    lemma_position_of(self.model(), key@);
                }
                return Some(i);
            }
            i = i + 1;
        }
        None
    }

    /// Stores `data` under `key` at time `now`, replacing any entry for
    /// `key`, and returns the size of the payload it replaced (zero if none).
    pub fn insert(&mut self, key: String, data: Vec<u8>, now: u64) -> (released: usize)
        requires
            old(self).wf(),
            old(self).held_view() + data@.len() <= usize::MAX,
        ensures
            final(self).wf(),
            final(self).model() == put_model(old(self).model(), key@, data@, now),
            released == size_for(old(self).model(), key@),
            final(self).held_view() == old(self).held_view() - released + data@.len(),
    {
        let ghost s = self.model();
        proof {
            lemma_put_model(s, key@, data@, now);
            lemma_without_key(s, key@);
        }
        let mut released: usize = 0;
        match self.find(key.as_str()) {
            Some(i) => {
                if let Some(old_entry) = self.entries.remove(i) {
                    released = old_entry.data.len();
                }
            },
            None => {},
        }
        assert(entry_views(self.entries@) =~= without_key(s, key@));
        let size = data.len();
        self.entries.push_back(CacheEntry { key, data, inserted_at: now });
        assert(entry_views(self.entries@) =~= put_model(s, key@, data@, now));
        self.held = self.held - released + size;
        released
    }

    /// An independent copy of the payload held for `key`.
    pub fn get(&self, key: &str) -> (r: Option<Vec<u8>>)
        requires
            self.wf(),
        ensures
            match r {
                Some(v) => lookup(self.model(), key@) == Some(v@),
                None => lookup(self.model(), key@) is None,
            },
    {
        match self.find(key) {
            Some(i) => {
                let copy = self.entries[i].data.clone();
                assert(copy@ =~= self.entries@[i as int].data@);
                Some(copy)
            },
            None => None,
        }
    }

    /// Removes the entry for `key`, if any, and returns its size.
    pub fn remove(&mut self, key: &str) -> (r: Option<usize>)
        requires
            old(self).wf(),
        ensures
            final(self).wf(),
            final(self).model() == without_key(old(self).model(), key@),
            match r {
                Some(n) => lookup(old(self).model(), key@) is Some && n == size_for(
                    old(self).model(),
                    key@,
                ),
                None => lookup(old(self).model(), key@) is None,
            },
    {
        let ghost s = self.model();
        proof {
            lemma_without_key(s, key@);
        }
        match self.find(key) {
            Some(i) => {
                let mut released: usize = 0;
                if let Some(old_entry) = self.entries.remove(i) {
                    released = old_entry.data.len();
                }
                assert(entry_views(self.entries@) =~= without_key(s, key@));
                self.held = self.held - released;
                Some(released)
            },
            None => None,
        }
    }

    /// Removes every entry.
    pub fn clear(&mut self)
        ensures
            final(self).wf(),
            final(self).model() == Seq::<EntryModel>::empty(),
    {
        self.entries.clear();
        self.held = 0;
        assert(entry_views(self.entries@) =~= Seq::<EntryModel>::empty());
    }

    /// Drops every entry that is expired at `now`, keeping the order of the
    /// others, and returns the number of bytes freed.
    pub fn reclaim(&mut self, now: u64) -> (freed: usize)
        requires
            old(self).wf(),
        ensures
            final(self).wf(),
            final(self).model() == fresh_entries(old(self).model(), now),
            freed == expired_bytes(old(self).model(), now),
            final(self).held_view() == old(self).held_view() - freed,
    {
        let ghost s = self.model();
        proof {
            lemma_fresh_split(s, now);
        }
        let n = self.entries.len();
        let mut freed: usize = 0;
        let mut i: usize = 0;
        assert(s.subrange(0, 0) =~= Seq::<EntryModel>::empty());
        assert(entry_views(self.entries@) =~= s.subrange(0, n as int) + fresh_entries(
            s.subrange(0, 0),
            now,
        ));
        while i < n
            invariant
                n == s.len(),
                0 <= i <= n,
                entry_views(self.entries@) == s.subrange(i as int, n as int) + fresh_entries(
                    s.subrange(0, i as int),
                    now,
                ),
                freed as nat == expired_bytes(s.subrange(0, i as int), now),
                total_bytes(s) <= usize::MAX,
                self.held == old(self).held,
            decreases n - i,
        {
            proof {
                lemma_fresh_split(s.subrange(0, i as int), now);
                lemma_total_prefix_le(s, i as int);
                assert(s.subrange(0, i as int + 1).drop_last() =~= s.subrange(0, i as int));
                assert(s.subrange(0, i as int + 1).last() == s[i as int]);
            }
            let ghost before = self.entries@;
            assert(entry_views(before).len() == n - i + fresh_entries(s.subrange(0, i as int), now).len());
            assert(before.len() > 0);
            assert(entry_views(before)[0] == before[0]@);
            assert((s.subrange(i as int, n as int) + fresh_entries(s.subrange(0, i as int), now))[0]
                == s[i as int]);
            if let Some(e) = self.entries.pop_front() {
                assert(e@ == s[i as int]);
                let ghost fr = fresh_entries(s.subrange(0, i as int), now);
                assert(entry_views(self.entries@) =~= entry_views(before).subrange(
                    1,
                    before.len() as int,
                ));
                assert((s.subrange(i as int, n as int) + fr).subrange(1, before.len() as int)
                    =~= s.subrange(i as int + 1, n as int) + fr);
                assert(entry_views(self.entries@) =~= s.subrange(i as int + 1, n as int) + fr);
                if e.inserted_at < now && now - e.inserted_at > RECLAIM_AGE_MS {
                    proof {
                        lemma_total_prefix_le(s, i as int + 1);
                        lemma_fresh_split(s.subrange(0, i as int + 1), now);
                        lemma_total_prefix(s, i as int);
                    }
                    freed = freed + e.data.len();
                    assert(fresh_entries(s.subrange(0, i as int + 1), now) == fr);
                } else {
                    let ghost mid = self.entries@;
                    self.entries.push_back(e);
                    assert(fresh_entries(s.subrange(0, i as int + 1), now) == fr.push(s[i as int]));
                    assert(entry_views(self.entries@) =~= entry_views(mid).push(e@));
                }
            }
            assert(entry_views(self.entries@) =~= s.subrange(i as int + 1, n as int)
                + fresh_entries(s.subrange(0, i as int + 1), now));
            i = i + 1;
        }
        assert(s.subrange(0, n as int) =~= s);
        assert(entry_views(self.entries@) =~= fresh_entries(s, now));
        self.held = self.held - freed;
        freed
    }
}

impl MemoryStats {
    /// Records the replacement of a payload of `released` bytes by one of
    /// `added` bytes; the counter does not go below zero nor past its range.
    pub fn record_put(&mut self, released: usize, added: usize)
        ensures
            final(self).allocated_bytes == net_allocation(old(self).allocated_bytes, released, added),
            final(self).peak_allocated_bytes == max_of(
                final(self).allocated_bytes,
                old(self).peak_allocated_bytes,
            ),
            final(self).gc_runs == old(self).gc_runs,
            final(self).last_gc_time == old(self).last_gc_time,
    {
        self.allocated_bytes = self.allocated_bytes.saturating_sub(released).saturating_add(added);
        if self.allocated_bytes > self.peak_allocated_bytes {
            self.peak_allocated_bytes = self.allocated_bytes;
        }
    }

    /// Records the removal of a payload of `size` bytes, flooring at zero.
    pub fn record_remove(&mut self, size: usize)
        ensures
            *final(self) == (MemoryStats {
                allocated_bytes: floor_sub(old(self).allocated_bytes, size),
                ..*old(self)
            }),
    {
        self.allocated_bytes = self.allocated_bytes.saturating_sub(size);
    }

    /// Records a reclamation pass at `now` that freed `freed` bytes.
    pub fn record_pass(&mut self, freed: usize, now: u64)
        requires
            old(self).gc_runs < u64::MAX,
        ensures
            *final(self) == stats_after_pass(*old(self), freed as nat, now),
    {
        self.allocated_bytes = self.allocated_bytes.saturating_sub(freed);
        self.gc_runs = self.gc_runs + 1;
        self.last_gc_time = Some(now);
    }

    /// Records that every entry was removed.
    pub fn record_clear(&mut self)
        ensures
            *final(self) == (MemoryStats { allocated_bytes: 0, ..*old(self) }),
    {
        self.allocated_bytes = 0;
    }
}

/// Whether a scheduled tick runs a reclamation pass: automatic reclamation
/// is on and usage exceeds the configured threshold.
pub fn should_reclaim(config: &GcConfig, allocated_bytes: usize) -> (r: bool)
    ensures
        r == (config.enable_auto_gc && allocated_bytes as int > threshold_bytes(*config)),
{
    config.enable_auto_gc && (allocated_bytes as u128) > (config.force_gc_threshold_mb as u128) * (
    MIB as u128)
}

/// A cache of byte payloads keyed by strings, with usage statistics.
pub struct MemoryManager {
    config: GcConfig,
    stats: MemoryStats,
    entries: CacheEntries,
}

impl MemoryManager {
    /// The entries held, in storage order.
    pub closed spec fn model(&self) -> Seq<EntryModel> {
        self.entries.model()
    }

    /// The statistics record.
    pub closed spec fn stats_view(&self) -> MemoryStats {
        self.stats
    }

    /// The configuration the cache was built with.
    pub closed spec fn config_view(&self) -> GcConfig {
        self.config
    }

    /// The allocation counter agrees with the entries' own count of bytes.
    pub closed spec fn counts_agree(&self) -> bool {
        self.entries.wf() && self.entries.held_view() == self.stats.allocated_bytes
    }

    /// Keys are unique, the allocation counter equals the sum of the
    /// payload sizes, and the peak is at least the current allocation.
    pub open spec fn wf(&self) -> bool {
        &&& keys_unique(self.model())
        &&& self.stats_view().allocated_bytes as nat == total_bytes(self.model())
        &&& self.stats_view().peak_allocated_bytes >= self.stats_view().allocated_bytes
        &&& self.counts_agree()
    }

    closed spec fn inner_wf(&self) -> bool {
        &&& self.entries.wf()
        &&& self.entries.held_view() == self.stats.allocated_bytes
        &&& self.stats.peak_allocated_bytes >= self.stats.allocated_bytes
    }

    proof fn lemma_wf(&self)
        ensures
            self.wf() <==> self.inner_wf(),
    {
    }

    /// An empty cache with zeroed statistics.
    pub fn new(config: GcConfig) -> (r: Self)
        ensures
            r.wf(),
            r.model() == Seq::<EntryModel>::empty(),
            r.config_view() == config,
            r.stats_view() == (MemoryStats {
                allocated_bytes: 0,
                peak_allocated_bytes: 0,
                gc_runs: 0,
                last_gc_time: None,
            }),
    {
        MemoryManager {
            config,
            stats: MemoryStats {
                allocated_bytes: 0,
                peak_allocated_bytes: 0,
                gc_runs: 0,
                last_gc_time: None,
            },
            entries: CacheEntries::new(),
        }
    }

    /// The configuration the cache was built with.
    pub fn config(&self) -> (r: GcConfig)
        ensures
            r == self.config_view(),
    {
        self.config
    }

    /// Whether a scheduled tick runs a reclamation pass now.
    pub fn should_auto_gc(&self) -> (r: bool)
        ensures
            r == (self.config_view().enable_auto_gc && self.stats_view().allocated_bytes as int
                > threshold_bytes(self.config_view())),
    {
        should_reclaim(&self.config, self.stats.allocated_bytes)
    }

    /// One scheduled wake of the background task: runs a reclamation pass
    /// at `now` when `should_auto_gc` holds, and reports whether it did.
    pub fn auto_gc_tick(&mut self, now: u64) -> (r: bool)
        requires
            old(self).wf(),
            old(self).stats_view().gc_runs < u64::MAX,
        ensures
            final(self).wf(),
            r == (old(self).config_view().enable_auto_gc && old(self).stats_view().allocated_bytes
                as int > threshold_bytes(old(self).config_view())),
            final(self).config_view() == old(self).config_view(),
            r ==> final(self).model() == fresh_entries(old(self).model(), now)
                && final(self).stats_view() == stats_after_pass(
                old(self).stats_view(),
                expired_bytes(old(self).model(), now),
                now,
            ),
            !r ==> final(self).model() == old(self).model() && final(self).stats_view() == old(
                self,
            ).stats_view(),
    {
        if self.should_auto_gc() {
            self.run_gc_internal(now);
            true
        } else {
            false
        }
    }

    /// Runs one reclamation pass at `now`, whatever the current usage.
    pub fn force_gc(&mut self, now: u64)
        requires
            old(self).wf(),
            old(self).stats_view().gc_runs < u64::MAX,
        ensures
            final(self).wf(),
            final(self).config_view() == old(self).config_view(),
            final(self).model() == fresh_entries(old(self).model(), now),
            final(self).stats_view() == stats_after_pass(
                old(self).stats_view(),
                expired_bytes(old(self).model(), now),
                now,
            ),
    {
        self.run_gc_internal(now);
    }

    /// Stores `data` under `key` at time `now`, replacing any payload held
    /// for `key`; the allocation counter changes by the net difference.
    pub fn cache_data(&mut self, key: String, data: Vec<u8>, now: u64)
        requires
            old(self).wf(),
            old(self).stats_view().allocated_bytes + data@.len() <= usize::MAX,
        ensures
            final(self).wf(),
            final(self).config_view() == old(self).config_view(),
            final(self).model() == put_model(old(self).model(), key@, data@, now),
            final(self).stats_view().allocated_bytes == total_bytes(old(self).model()) - size_for(
                old(self).model(),
                key@,
            ) + data@.len(),
            final(self).stats_view().peak_allocated_bytes == max_of(
                final(self).stats_view().allocated_bytes,
                old(self).stats_view().peak_allocated_bytes,
            ),
            final(self).stats_view().gc_runs == old(self).stats_view().gc_runs,
            final(self).stats_view().last_gc_time == old(self).stats_view().last_gc_time,
    {
        proof {
            self.lemma_wf();
            lemma_without_key(self.model(), key@);
        }
        let size = data.len();
        let released = self.entries.insert(key, data, now);
        self.stats.record_put(released, size);
        proof {
            self.lemma_wf();
        }
    }

    /// An independent copy of the payload held for `key`; the entry's
    /// insertion time is left as it is.
    pub fn get_cached_data(&self, key: &str) -> (r: Option<Vec<u8>>)
        requires
            self.wf(),
        ensures
            match r {
                Some(v) => lookup(self.model(), key@) == Some(v@),
                None => lookup(self.model(), key@) is None,
            },
    {
        proof {
            self.lemma_wf();
        }
        self.entries.get(key)
    }

    /// Removes the entry for `key`, if any, and reports whether one was removed.
    pub fn remove_cached_data(&mut self, key: &str) -> (r: bool)
        requires
            old(self).wf(),
        ensures
            final(self).wf(),
            final(self).config_view() == old(self).config_view(),
            r == (lookup(old(self).model(), key@) is Some),
            final(self).model() == without_key(old(self).model(), key@),
            final(self).stats_view() == (MemoryStats {
                allocated_bytes: (total_bytes(old(self).model()) - size_for(
                    old(self).model(),
                    key@,
                )) as usize,
                ..old(self).stats_view()
            }),
    {
        proof {
            self.lemma_wf();
            lemma_without_key(self.model(), key@);
            lemma_position_of(self.model(), key@);
        }
        let r = match self.entries.remove(key) {
            Some(size) => {
                self.stats.record_remove(size);
                true
            },
            None => false,
        };
        proof {
            self.lemma_wf();
        }
        r
    }

    /// A snapshot of the statistics.
    pub fn get_stats(&self) -> (r: MemoryStats)
        ensures
            r == self.stats_view(),
    {
        self.stats
    }

    /// Removes every entry and zeroes the allocation counter; the peak and
    /// the reclamation history are kept.
    pub fn clear_cache(&mut self)
        requires
            old(self).wf(),
        ensures
            final(self).wf(),
            final(self).config_view() == old(self).config_view(),
            final(self).model() == Seq::<EntryModel>::empty(),
            final(self).stats_view() == (MemoryStats {
                allocated_bytes: 0,
                ..old(self).stats_view()
            }),
    {
        proof {
            self.lemma_wf();
        }
        self.entries.clear();
        self.stats.record_clear();
        proof {
            self.lemma_wf();
        }
    }

    /// One reclamation pass: drops every expired entry, then updates the
    /// statistics.
    fn run_gc_internal(&mut self, now: u64)
        requires
            old(self).wf(),
            old(self).stats_view().gc_runs < u64::MAX,
        ensures
            final(self).wf(),
            final(self).config_view() == old(self).config_view(),
            final(self).model() == fresh_entries(old(self).model(), now),
            final(self).stats_view() == stats_after_pass(
                old(self).stats_view(),
                expired_bytes(old(self).model(), now),
                now,
            ),
    {
        proof {
            self.lemma_wf();
        }
        let freed = self.entries.reclaim(now);
        self.stats.record_pass(freed, now);
        proof {
            self.lemma_wf();
        }
    }
}

/// Overwriting a key counts only the newest payload: after storing `a` and
/// then `b` under `k`, the entries hold the bytes of the other keys plus
/// those of `b`, and `k` maps to `b`.
pub proof fn lemma_overwrite_accounting(
    s: Seq<EntryModel>,
    k: Seq<char>,
    a: Seq<u8>,
    b: Seq<u8>,
    t1: u64,
    t2: u64,
)
    requires
        keys_unique(s),
    ensures
        total_bytes(put_model(put_model(s, k, a, t1), k, b, t2)) == total_bytes(without_key(s, k))
            + b.len(),
        lookup(put_model(put_model(s, k, a, t1), k, b, t2), k) == Some(b),
        s.len() == 0 ==> total_bytes(put_model(put_model(s, k, a, t1), k, b, t2)) == b.len(),
{
    let s1 = put_model(s, k, a, t1);
    lemma_put_model(s, k, a, t1);
    lemma_without_key(s, k);
    lemma_put_model(s1, k, b, t2);
    if s.len() == 0 {
        lemma_position_of(s, k);
    }
}

/// A reclamation pass removes an entry whose age exceeds the reclamation
/// age: when it is the only such entry, the pass leaves exactly the other
/// entries, frees exactly its bytes and counts one more run.
pub proof fn lemma_ttl_reclaim(s: Seq<EntryModel>, i: int, now: u64, st: MemoryStats)
    requires
        keys_unique(s),
        0 <= i < s.len(),
        is_expired(s[i], now),
        forall|j: int| 0 <= j < s.len() && j != i ==> !is_expired(#[trigger] s[j], now),
        st.allocated_bytes == total_bytes(s),
        st.gc_runs < u64::MAX,
    ensures
        fresh_entries(s, now) == s.remove(i),
        lookup(fresh_entries(s, now), s[i].0) is None,
        expired_bytes(s, now) == s[i].1.len(),
        stats_after_pass(st, expired_bytes(s, now), now).allocated_bytes == st.allocated_bytes
            - s[i].1.len(),
        stats_after_pass(st, expired_bytes(s, now), now).gc_runs == st.gc_runs + 1,
    decreases s.len(),
{
    let d = s.drop_last();
    if i == s.len() - 1 {
        assert forall|j: int| 0 <= j < d.len() implies !is_expired(#[trigger] d[j], now) by {
            assert(d[j] == s[j]);
        }
        lemma_fresh_all(d, now);
        assert(s.remove(i) =~= d);
    } else {
        assert(keys_unique(d));
        assert(d[i] == s[i]);
        assert forall|j: int| 0 <= j < d.len() && j != i implies !is_expired(#[trigger] d[j], now) by {
            assert(d[j] == s[j]);
        }
        lemma_total_remove(s, i);
        lemma_ttl_reclaim(d, i, now, MemoryStats { allocated_bytes: total_bytes(d) as usize, ..st });
        assert(!is_expired(s[s.len() - 1], now));
        assert(d.remove(i).push(s.last()) =~= s.remove(i));
    }
    lemma_unique_remove(s, i);
    lemma_position_of(s.remove(i), s[i].0);
    lemma_total_remove(s, i);
}

/// A scheduled tick on a cache whose usage exceeds the threshold runs a
/// pass; when every entry is younger than the reclamation age that pass
/// removes nothing and leaves the usage as it was.
pub proof fn lemma_tick_without_eviction(m: MemoryManager, now: u64)
    requires
        m.wf(),
        m.config_view().enable_auto_gc,
        m.stats_view().allocated_bytes as int > threshold_bytes(m.config_view()),
        m.stats_view().gc_runs < u64::MAX,
        forall|j: int| 0 <= j < m.model().len() ==> !is_expired(#[trigger] m.model()[j], now),
    ensures
        fresh_entries(m.model(), now) == m.model(),
        stats_after_pass(m.stats_view(), expired_bytes(m.model(), now), now).allocated_bytes
            == m.stats_view().allocated_bytes,
        stats_after_pass(m.stats_view(), expired_bytes(m.model(), now), now).gc_runs
            == m.stats_view().gc_runs + 1,
{
    lemma_fresh_all(m.model(), now);
}

/// The configuration used when none is given.
pub open spec fn default_config() -> GcConfig {
    GcConfig {
        max_memory_mb: 512,
        gc_interval_seconds: 300,
        force_gc_threshold_mb: 256,
        enable_auto_gc: true,
    }
}

/// Configures the process-wide cache once: an empty slot receives a new
/// cache built from `config` (or the default configuration); a configured
/// slot is left as it is.
pub fn init_memory_manager(slot: &mut Option<MemoryManager>, config: Option<GcConfig>)
    ensures
        *old(slot) is Some ==> *final(slot) == *old(slot),
        *old(slot) is None ==> match *final(slot) {
            Some(m) => {
                &&& m.wf()
                &&& m.model() == Seq::<EntryModel>::empty()
                &&& m.stats_view().allocated_bytes == 0
                &&& m.stats_view().gc_runs == 0
                &&& m.config_view() == match config {
                    Some(c) => c,
                    None => default_config(),
                }
            },
            None => false,
        },
{
    if slot.is_none() {
        let chosen = match config {
            Some(c) => c,
            None => GcConfig::default(),
        };
        *slot = Some(MemoryManager::new(chosen));
    }
}

/// The process-wide cache, or `None` while it is unconfigured.
pub fn get_memory_manager(slot: &Option<MemoryManager>) -> (r: Option<&MemoryManager>)
    ensures
        match r {
            Some(m) => *slot == Some(*m),
            None => slot is None,
        },
{
    match slot {
        Some(m) => Some(m),
        None => None,
    }
}

/// Runs one reclamation pass on the process-wide cache at `now`; returns
/// `false`, and changes nothing, while it is unconfigured.
pub fn force_gc(slot: &mut Option<MemoryManager>, now: u64) -> (r: bool)
    requires
        *old(slot) matches Some(m) ==> m.wf() && m.stats_view().gc_runs < u64::MAX,
    ensures
        r == (*old(slot) is Some),
        match (*old(slot), *final(slot)) {
            (Some(a), Some(b)) => {
                &&& b.wf()
                &&& b.config_view() == a.config_view()
                &&& b.model() == fresh_entries(a.model(), now)
                &&& b.stats_view() == stats_after_pass(
                    a.stats_view(),
                    expired_bytes(a.model(), now),
                    now,
                )
            },
            (None, None) => true,
            _ => false,
        },
{
    match slot {
        Some(m) => {
            m.force_gc(now);
            true
        },
        None => false,
    }
}

/// The statistics of the process-wide cache, or `None` while it is
/// unconfigured.
pub fn get_memory_stats(slot: &Option<MemoryManager>) -> (r: Option<MemoryStats>)
    ensures
        match *slot {
            Some(m) => r == Some(m.stats_view()),
            None => r is None,
        },
{
    match slot {
        Some(m) => Some(m.get_stats()),
        None => None,
    }
}

} // verus!
