//! The pool of recent danmaku.

use crate::danmaku::{Danmaku, DanmakuView};
use crate::history::{Window, CAPACITY_LIMIT};
use crate::model::{lemma_collected_wf, lemma_inserted_wf, PoolModel, PoolOp};
use crate::slots::{
    bits_of, key_bits, null_key, slot_entries, slot_issued, slots_get, slots_insert, slots_len,
    slots_retain, slots_with_capacity, Slots, KEY_LIMIT, NULL_KEY_BITS, SLOT_LIMIT,
};
use slotmap::DefaultKey;
use std::collections::HashSet;
use vstd::prelude::*;
use vstd::std_specs::cmp::PartialEqSpecImpl;

verus! {

/// The capacity of the pool that a server shares among its connections.
pub const DEFAULT_CAPACITY: usize = 100;

/// The identity that a pool gives to an event on insertion. It means
/// something only to the pool that issued it.
#[derive(Debug, Clone, Copy, Hash, PartialOrd, Ord)]
pub struct PoolKey {
    key: DefaultKey,
}

impl View for PoolKey {
    type V = u64;

    closed spec fn view(&self) -> u64 {
        key_bits(self.key)
    }
}

impl PoolKey {
    /// The key as a 64-bit integer.
    pub fn bits(&self) -> (bits: u64)
        ensures
            bits == self@,
    {
        bits_of(self.key)
    }

    /// Whether this is the null key, which no pool issues.
    pub fn is_null(&self) -> (null: bool)
        ensures
            null == (self@ == NULL_KEY_BITS),
    {
        bits_of(self.key) == NULL_KEY_BITS
    }
}

impl Default for PoolKey {
    /// The null key.
    fn default() -> (key: PoolKey)
        ensures
            key@ == NULL_KEY_BITS,
    {
        PoolKey { key: null_key() }
    }
}

impl PartialEq for PoolKey {
    fn eq(&self, other: &PoolKey) -> (equal: bool) {
        bits_of(self.key) == bits_of(other.key)
    }
}

impl PartialEqSpecImpl for PoolKey {
    open spec fn obeys_eq_spec() -> bool {
        true
    }

    open spec fn eq_spec(&self, other: &PoolKey) -> bool {
        self@ == other@
    }
}

impl Eq for PoolKey {

}

/// The events as plain values, each under its key.
pub open spec fn entry_views(entries: Map<u64, Danmaku>) -> Map<u64, DanmakuView> {
    entries.map_values(|event: Danmaku| event@)
}

/// The events of a sequence as plain values.
pub open spec fn event_views(events: Seq<&Danmaku>) -> Seq<DanmakuView> {
    Seq::new(events.len(), |i: int| events[i]@)
}

/// A pool of danmaku, containing the last `N` danmaku.
pub struct DanmakuPool<const N: usize> {
    storage: Slots,
    history: Box<Window<N>>,
}

impl<const N: usize> View for DanmakuPool<N> {
    type V = PoolModel;

    closed spec fn view(&self) -> PoolModel {
        PoolModel {
            stored: entry_views(slot_entries(self.storage)),
            window: self.history.keys(),
            issued: slot_issued(self.storage),
            capacity: N as nat,
        }
    }
}

impl<const N: usize> DanmakuPool<N> {
    #[verifier::type_invariant]
    pub(crate) closed spec fn well_formed(self) -> bool {
        let keys = slot_entries(self.storage).dom();
        let issued = slot_issued(self.storage);
        let window = self.history.keys();
        &&& N > 0
        &&& issued.finite()
        &&& !issued.contains(NULL_KEY_BITS)
        &&& keys.finite()
        &&& keys.subset_of(issued)
        &&& window.len() <= N
        &&& window.no_duplicates()
        &&& forall|i: int| 0 <= i < window.len() ==> keys.contains(#[trigger] window[i])
    }

    /// The invariant of the type, said of the pool as a mathematical value.
    pub(crate) proof fn lemma_wf(self)
        requires
            self.well_formed(),
        ensures
            self@.wf(),
            self@.capacity == N,
    {
        self.lemma_stored_keys();
    }

    proof fn lemma_stored_keys(self)
        ensures
            self@.stored.dom() == slot_entries(self.storage).dom(),
    {
        assert(self@.stored.dom() =~= slot_entries(self.storage).dom());
    }

    /// Creates a new danmaku pool.
    ///
    /// A pool has room for at least one danmaku, and for no more than
    /// `CAPACITY_LIMIT`.
    pub fn new() -> (pool: DanmakuPool<N>)
        requires
            0 < N <= CAPACITY_LIMIT,
        ensures
            pool@ == PoolModel::empty(N as nat),
            pool@.wf(),
    {
        let pool = DanmakuPool { storage: slots_with_capacity(N), history: Box::new(Window::new()) };
        proof {
            assert(entry_views(slot_entries(pool.storage)) =~= Map::empty());
        }
        pool
    }

    /// The number of danmaku that the window holds at most.
    pub fn capacity(&self) -> (capacity: usize)
        ensures
            capacity == N,
            capacity == self@.capacity,
    {
        N
    }

    /// The number of danmaku that the pool stores, those that a collection
    /// would remove included.
    pub fn stored_len(&self) -> (len: usize)
        ensures
            self@.wf(),
            len == self@.stored.len(),
    {
        proof {
            use_type_invariant(self);
            self.lemma_wf();
            self.lemma_stored_keys();
        }
        slots_len(&self.storage)
    }

    /// Inserts a danmaku into the pool.
    ///
    /// The key that comes back is one under which the pool stores nothing,
    /// and it is not the null key. While the pool has issued fewer than
    /// `KEY_LIMIT` keys, it is also different from every key that the pool
    /// has issued before, collected ones included.
    pub fn insert(&mut self, danmaku: Danmaku) -> (key: PoolKey)
        requires
            old(self)@.stored.len() < SLOT_LIMIT,
        ensures
            !old(self)@.stored.dom().contains(key@),
            key@ != NULL_KEY_BITS,
            old(self)@.issued.len() < KEY_LIMIT ==> old(self)@.admits(
                (PoolOp::Insert { key: key@, event: danmaku@ }),
            ),
            final(self)@ == old(self)@.inserted(key@, danmaku@),
            final(self)@.resolve(key@) == Some(danmaku@),
            final(self)@.wf(),
    {
        proof {
            use_type_invariant(&*self);
            self.lemma_wf();
            self.lemma_stored_keys();
        }
        let ghost before = self@;
        let ghost entries = slot_entries(self.storage);
        let ghost event = danmaku;
        let key = slots_insert(&mut self.storage, danmaku);
        proof {
            lemma_inserted_wf(before, key_bits(key), event@);
            assert(before.inserted(key_bits(key), event@).stored.dom() =~= slot_entries(
                self.storage,
            ).dom());
        }
        self.history.write(key);
        proof {
            assert(entry_views(entries.insert(key_bits(key), event)) =~= entry_views(
                entries,
            ).insert(key_bits(key), event@));
        }
        PoolKey { key }
    }

    /// Inserts a danmaku into the pool unless its storage is full, in which
    /// case the pool stays as it is.
    pub fn try_insert(&mut self, danmaku: Danmaku) -> (key: Option<PoolKey>)
        ensures
            final(self)@.wf(),
            key.is_some() == (old(self)@.stored.len() < SLOT_LIMIT),
            match key {
                Some(key) => {
                    &&& !old(self)@.stored.dom().contains(key@)
                    &&& key@ != NULL_KEY_BITS
                    &&& old(self)@.issued.len() < KEY_LIMIT ==> old(self)@.admits(
                        (PoolOp::Insert { key: key@, event: danmaku@ }),
                    )
                    &&& final(self)@ == old(self)@.inserted(key@, danmaku@)
                },
                None => final(self)@ == old(self)@,
            },
    {
        if self.stored_len() < SLOT_LIMIT {
            Some(self.insert(danmaku))
        } else {
            None
        }
    }

    /// Gets a danmaku from the pool.
    pub fn get(&self, key: PoolKey) -> (found: Option<&Danmaku>)
        ensures
            self@.wf(),
            match self@.resolve(key@) {
                Some(event) => found.is_some() && found.unwrap()@ == event,
                None => found.is_none(),
            },
    {
        proof {
            use_type_invariant(self);
            self.lemma_wf();
            self.lemma_stored_keys();
        }
        slots_get(&self.storage, key.key)
    }

    /// The danmaku in the pool, from oldest to newest.
    pub fn iter(&self) -> (events: Vec<&Danmaku>)
        ensures
            self@.wf(),
            event_views(events@) == self@.replay(),
    {
        proof {
            use_type_invariant(self);
            self.lemma_wf();
            self.lemma_stored_keys();
        }
        let keys = self.history.oldest_ordered();
        let mut events: Vec<&Danmaku> = Vec::new();
        let mut i: usize = 0;
        while i < keys.len()
            invariant
                0 <= i <= keys.len(),
                self@.wf(),
                keys@.len() == self@.window.len(),
                forall|j: int|
                    0 <= j < keys@.len() ==> key_bits(#[trigger] keys@[j]) == self@.window[j],
                events@.len() == i,
                forall|j: int|
                    0 <= j < i ==> (#[trigger] events@[j])@ == self@.stored[self@.window[j]],
            decreases keys.len() - i,
        {
            let key = keys[i];
            proof {
                assert(self@.stored.dom().contains(self@.window[i as int]));
            }
            match slots_get(&self.storage, key) {
                Some(event) => {
                    events.push(event);
                },
                None => {
                    proof {
                        assert(false);
                    }
                },
            }
            i += 1;
        }
        proof {
            assert(event_views(events@) =~= self@.replay());
        }
        events
    }

    /// Performs garbage collection on the pool.
    pub fn garbage_collect(&mut self)
        ensures
            final(self)@ == old(self)@.collected(),
            final(self)@.stored.len() == final(self)@.window.len(),
            final(self)@.stored.len() <= N,
            final(self)@.wf(),
    {
        broadcast use vstd::std_specs::hash::group_hash_axioms;

        proof {
            use_type_invariant(&*self);
            self.lemma_wf();
            self.lemma_stored_keys();
        }
        let ghost before = self@;
        let ghost entries = slot_entries(self.storage);
        let keys = self.history.oldest_ordered();
        let mut live: HashSet<u64> = HashSet::new();
        let mut i: usize = 0;
        while i < keys.len()
            invariant
                0 <= i <= keys.len(),
                keys@.len() == before.window.len(),
                forall|j: int|
                    0 <= j < keys@.len() ==> key_bits(#[trigger] keys@[j]) == before.window[j],
                live@ == before.window.take(i as int).to_set(),
            decreases keys.len() - i,
        {
            live.insert(bits_of(keys[i]));
            proof {
                assert(before.window.take(i + 1) =~= before.window.take(i as int).push(
                    before.window[i as int],
                ));
                assert(before.window.take(i + 1).to_set() =~= before.window.take(
                    i as int,
                ).to_set().insert(before.window[i as int])) by {
                    vstd::seq_lib::seq_to_set_is_finite(before.window.take(i as int));
                    before.window.take(i as int).lemma_push_to_set_commute(before.window[i as int]);
                }
            }
            i += 1;
        }
        proof {
            assert(before.window.take(i as int) =~= before.window);
            lemma_collected_wf(before);
            assert(before.collected().stored.dom() =~= entries.restrict(live@).dom());
        }
        slots_retain(&mut self.storage, &live);
        proof {
            assert(entry_views(entries.restrict(before.window.to_set())) =~= entry_views(
                entries,
            ).restrict(before.window.to_set()));
        }
    }
}

impl Default for DanmakuPool<100> {
    fn default() -> (pool: DanmakuPool<100>)
        ensures
            pool@ == PoolModel::empty(100),
            pool@.wf(),
    {
        DanmakuPool::new()
    }
}

} // verus!
