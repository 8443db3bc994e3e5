//! The preview cache: a least-recently-used map from cache keys to previews,
//! the quantized preview area that keys are computed from, and the size of
//! the preview worker pool.
use vstd::prelude::*;
use std::sync::Arc;
use crate::preview::PreviewResult;
use crate::textfmt::str_eq;

pub mod key;

verus! {

/// A rectangle of terminal cells.
#[derive(Debug, Clone, Copy, PartialEq, Eq, Structural)]
pub struct Rect {
    pub x: u16,
    pub y: u16,
    pub width: u16,
    pub height: u16,
}

impl Default for Rect {
    fn default() -> (res: Self)
        ensures
            res == (Rect { x: 0, y: 0, width: 0, height: 0 }),
    {
        Rect { x: 0, y: 0, width: 0, height: 0 }
    }
}

/// The number of previews kept in memory by default.
pub const MEM_ENTRIES: usize = 100;

/// `cpus / 2`, but at least 2 and at most 6.
pub open spec fn worker_count(cpus: nat) -> nat {
    if cpus / 2 < 2 { 2 } else if cpus / 2 > 6 { 6 } else { cpus / 2 }
}

/// The worker pool has half the CPUs, but never fewer than 2 nor more than
/// 6 workers.
pub proof fn lemma_worker_count_clamped(cpus: nat)
    ensures
        2 <= worker_count(cpus) <= 6,
        2 <= cpus / 2 <= 6 ==> worker_count(cpus) == cpus / 2,
        cpus / 2 < 2 ==> worker_count(cpus) == 2,
        cpus / 2 > 6 ==> worker_count(cpus) == 6,
{
}

/// The number of logical CPUs available to this process
/// (`num_cpus::get`); it depends on the machine, so nothing is promised.
#[verifier::external_body]
fn available_cpus() -> usize {
    num_cpus::get()
}

/// The worker pool size for a machine with `cpus` logical CPUs.
pub fn worker_threads_for(cpus: usize) -> (res: usize)
    ensures
        res == worker_count(cpus as nat),
{
    let half = cpus / 2;
    if half < 2 { 2 } else if half > 6 { 6 } else { half }
}

/// Releases the on-disk cache tier; there is no disk tier, so nothing is
/// removed and the call always succeeds.
pub fn clear_disk_cache() -> (res: Result<(), String>)
    ensures
        res is Ok,
{
    Ok(())
}

/// A previously computed preview shared with the cache.
#[verifier::external_body]
fn share(v: &Arc<PreviewResult>) -> (res: Arc<PreviewResult>)
    ensures
        res == *v,
{
    Arc::clone(v)
}

/// In-memory previews, least recently used first.
pub struct Cache {
    capacity: usize,
    entries: Vec<(String, Arc<PreviewResult>)>,
}

/// The keys of a list of cache entries.
pub open spec fn keys_of(entries: Seq<(String, Arc<PreviewResult>)>) -> Seq<Seq<char>> {
    entries.map_values(|e: (String, Arc<PreviewResult>)| e.0@)
}

/// The keys of a cache view.
pub open spec fn key_list(v: Seq<(Seq<char>, PreviewResult)>) -> Seq<Seq<char>> {
    v.map_values(|e: (Seq<char>, PreviewResult)| e.0)
}

/// No key occurs twice.
pub open spec fn distinct_keys(ks: Seq<Seq<char>>) -> bool {
    forall|i: int, j: int| 0 <= i < j < ks.len() ==> ks[i] != ks[j]
}

/// The position of `key` in `ks`, if present.
pub open spec fn position_of(ks: Seq<Seq<char>>, key: Seq<char>) -> Option<int> {
    if exists|i: int| 0 <= i < ks.len() && ks[i] == key {
        Some(choose|i: int| 0 <= i < ks.len() && ks[i] == key)
    } else {
        None
    }
}

impl Cache {
    /// The cached previews as (key, preview) pairs, least recently used
    /// first.
    pub closed spec fn view(&self) -> Seq<(Seq<char>, PreviewResult)> {
        self.entries@.map_values(|e: (String, Arc<PreviewResult>)| (e.0@, *e.1))
    }

    /// How many previews are kept.
    pub closed spec fn capacity_spec(&self) -> nat {
        self.capacity as nat
    }

    /// The cache is well formed: no key twice, at most `capacity` entries.
    pub closed spec fn wf(&self) -> bool {
        &&& distinct_keys(keys_of(self.entries@))
        &&& self.entries@.len() <= self.capacity
    }

    /// An empty cache for the default number of previews.
    pub fn new() -> (res: Self)
        ensures
            res.wf(),
            res.view().len() == 0,
            res.capacity_spec() == MEM_ENTRIES,
            res.capacity_spec() == 100,
    {
        Self::with_capacity(MEM_ENTRIES)
    }

    /// An empty cache for `capacity` previews (none are kept when 0).
    pub fn with_capacity(capacity: usize) -> (res: Self)
        ensures
            res.wf(),
            res.view().len() == 0,
            res.capacity_spec() == capacity,
    {
        let c = Cache { capacity, entries: Vec::new() };
        assert(c.view() =~= Seq::<(Seq<char>, PreviewResult)>::empty());
        c
    }

    /// The number of cached previews.
    pub fn len(&self) -> (res: usize)
        ensures
            res == self.view().len(),
    {
        self.entries.len()
    }

    fn find(&self, key: &str) -> (res: Option<usize>)
        requires
            self.wf(),
        ensures
            res matches Some(i) ==> i < self.entries@.len() && self.entries@[i as int].0@ == key@,
            res is None ==> forall|i: int| 0 <= i < self.entries@.len() ==> self.entries@[i].0@ != key@,
    {
        let mut i: usize = 0;
        while i < self.entries.len()
            invariant
                0 <= i <= self.entries@.len(),
                forall|j: int| 0 <= j < i ==> self.entries@[j].0@ != key@,
            decreases self.entries.len() - i,
        {
            if str_eq(self.entries[i].0.as_str(), key) {
                return Some(i);
            }
            i = i + 1;
        }
        None
    }

    /// The cached preview for `key`, which then becomes the most recently
    /// used; `None` when `key` is not cached.
    pub fn get(&mut self, key: &str) -> (res: Option<Arc<PreviewResult>>)
        requires
            old(self).wf(),
        ensures
            final(self).wf(),
            final(self).capacity_spec() == old(self).capacity_spec(),
            match res {
                Some(v) => exists|i: int| #![trigger old(self).view()[i]]
                    0 <= i < old(self).view().len() && old(self).view()[i] == (key@, *v)
                    && final(self).view() == old(self).view().remove(i).push((key@, *v)),
                None => (forall|i: int| 0 <= i < old(self).view().len() ==> old(self).view()[i].0 != key@)
                    && final(self).view() == old(self).view(),
            },
    {
        match self.find(key) {
            None => None,
            Some(i) => {
                let ghost before = self.entries@;
                let e = self.entries.remove(i);
                let v = share(&e.1);
                self.entries.push(e);
                proof {
                    assert(self.view() =~= old(self).view().remove(i as int).push((key@, *v)));
                    assert(keys_of(self.entries@) =~= keys_of(before).remove(i as int).push(key@));
                    assert forall|a: int, b: int| 0 <= a < b < keys_of(self.entries@).len()
                        implies keys_of(self.entries@)[a] != keys_of(self.entries@)[b] by {
                        let ks = keys_of(before);
                        let oa = if a < i { a } else { a + 1 };
                        if b == keys_of(self.entries@).len() - 1 {
                            assert(ks[oa] != ks[i as int]);
                        } else {
                            let ob = if b < i { b } else { b + 1 };
                            assert(ks[oa] != ks[ob]);
                        }
                    }
                    assert(old(self).view()[i as int] == (key@, *v));
                }
                Some(v)
            }
        }
    }

    /// Stores `value` under `key` as the most recently used preview; an
    /// earlier preview under `key` is replaced, and when the cache is full
    /// the least recently used preview is dropped. Nothing is stored when
    /// the capacity is 0.
    pub fn put(&mut self, key: String, value: Arc<PreviewResult>)
        requires
            old(self).wf(),
        ensures
            final(self).wf(),
            final(self).capacity_spec() == old(self).capacity_spec(),
            ({
                let without = match position_of(key_list(old(self).view()), key@) {
                    Some(i) => old(self).view().remove(i),
                    None => old(self).view(),
                };
                if old(self).capacity_spec() == 0 {
                    final(self).view() == old(self).view()
                } else if without.len() >= old(self).capacity_spec() {
                    final(self).view() == without.drop_first().push((key@, *value))
                } else {
                    final(self).view() == without.push((key@, *value))
                }
            }),
    {
        if self.capacity == 0 {
            return;
        }
        let ghost ks0 = keys_of(self.entries@);
        assert(ks0 =~= key_list(self.view()));
        match self.find(key.as_str()) {
            Some(i) => {
                proof {
                    assert(ks0[i as int] == key@);
                    assert(exists|j: int| 0 <= j < ks0.len() && ks0[j] == key@);
                    let c = choose|j: int| 0 <= j < ks0.len() && ks0[j] == key@;
                    assert(c == i as int);
                }
                let ghost before = self.entries@;
                let _old_entry = self.entries.remove(i);
                proof {
                    assert(self.view() =~= old(self).view().remove(i as int));
                    assert(keys_of(self.entries@) =~= ks0.remove(i as int));
                    assert forall|a: int, b: int| 0 <= a < b < keys_of(self.entries@).len()
                        implies keys_of(self.entries@)[a] != keys_of(self.entries@)[b] by {
                        let oa = if a < i { a } else { a + 1 };
                        let ob = if b < i { b } else { b + 1 };
                        assert(ks0[oa] != ks0[ob]);
                    }
                }
            }
            None => {
                proof {
                    assert(!(exists|j: int| 0 <= j < ks0.len() && ks0[j] == key@));
                }
            }
        }
        let ghost mid = self.view();
        let ghost midk = keys_of(self.entries@);
        assert(forall|j: int| 0 <= j < midk.len() ==> midk[j] != key@) by {
            assert forall|j: int| 0 <= j < midk.len() implies midk[j] != key@ by {
                assert(midk[j] == self.entries@[j].0@);
            }
        }
        if self.entries.len() >= self.capacity {
            let _dropped = self.entries.remove(0);
            proof {
                assert(self.view() =~= mid.drop_first());
                assert(keys_of(self.entries@) =~= midk.drop_first());
            }
        }
        let ghost mid2k = keys_of(self.entries@);
        let ghost kv = key@;
        self.entries.push((key, value));
        proof {
            assert(keys_of(self.entries@) =~= mid2k.push(kv));
            assert forall|a: int, b: int| 0 <= a < b < keys_of(self.entries@).len()
                implies keys_of(self.entries@)[a] != keys_of(self.entries@)[b] by {
                if self.entries@.len() as int - 1 == b {
                    assert(mid2k[a] != kv);
                }
            }
        }
        assert(self.view() =~= if mid.len() >= old(self).capacity_spec() {
            mid.drop_first().push((kv, *value))
        } else {
            mid.push((kv, *value))
        });
    }

    /// The preview area rounded down to the quantization grid.
    pub fn quantized(area: Rect) -> (res: Rect)
        ensures
            res == key::quantized_spec(area),
    {
        key::quantized(area)
    }

    /// The preview worker pool size: half the available CPUs, clamped to
    /// 2..=6.
    pub fn worker_threads() -> (res: usize)
        ensures
            2 <= res <= 6,
    {
        worker_threads_for(available_cpus())
    }
}

/// A well-formed cache never holds more previews than its capacity, and
/// holds each key at most once.
pub proof fn lemma_cache_bounded(c: &Cache)
    requires
        c.wf(),
    ensures
        c.view().len() <= c.capacity_spec(),
        distinct_keys(key_list(c.view())),
{
    assert(key_list(c.view()) =~= keys_of(c.entries@));
}

/// After a store of `value` under `key`, `key` is in the cache exactly once
/// and holds `value`: a lookup of `key` then gives back `value`.
pub proof fn lemma_put_then_lookup(after: Seq<(Seq<char>, PreviewResult)>, without: Seq<(Seq<char>, PreviewResult)>, key: Seq<char>, value: PreviewResult, cap: nat)
    requires
        cap > 0,
        distinct_keys(key_list(after)),
        after == if without.len() >= cap { without.drop_first().push((key, value)) } else { without.push((key, value)) },
    ensures
        position_of(key_list(after), key) == Some(after.len() - 1),
        forall|i: int| 0 <= i < after.len() && after[i].0 == key ==> after[i].1 == value,
{
    let ks = key_list(after);
    let last = after.len() - 1;
    assert(ks[last] == key);
    assert(exists|j: int| 0 <= j < ks.len() && ks[j] == key);
    let c = choose|j: int| 0 <= j < ks.len() && ks[j] == key;
    if c != last {
        assert(ks[c] != ks[last]);
    }
    assert forall|i: int| 0 <= i < after.len() && after[i].0 == key implies after[i].1 == value by {
        if i != last {
            assert(ks[i] == key);
            assert(ks[i] != ks[last]);
        }
    }
}

} // verus!
