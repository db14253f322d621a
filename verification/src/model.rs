//! The pool as a mathematical value, and what holds of it.
//!
//! A pool is a finite map from keys to events together with a window: the
//! keys of the most recent insertions, oldest first, as many as the pool's
//! capacity. It also remembers every key that it has issued. Every operation
//! of the pool is a function on this value, and the laws at the end of the
//! file are proved about those functions, for every capacity.

use crate::danmaku::DanmakuView;
use crate::history::window_after_write;
use crate::slots::NULL_KEY_BITS;
use vstd::prelude::*;

verus! {

/// One change to a pool.
pub enum PoolOp {
    /// The insertion of `event` under `key`.
    Insert { key: u64, event: DanmakuView },
    /// A collection.
    Collect,
}

/// A pool, as plain values.
pub struct PoolModel {
    /// Every event that the pool still holds, under its key.
    pub stored: Map<u64, DanmakuView>,
    /// The keys of the most recent insertions, oldest first.
    pub window: Seq<u64>,
    /// Every key that the pool has issued, collected ones included.
    pub issued: Set<u64>,
    /// How many keys the window holds at most.
    pub capacity: nat,
}

/// The last `count` items of `items`, or all of them if there are fewer.
pub open spec fn recent<A>(items: Seq<A>, count: nat) -> Seq<A> {
    if items.len() <= count {
        items
    } else {
        items.subrange(items.len() - count, items.len() as int)
    }
}

/// The keys of the insertions among `ops`, in their order.
pub open spec fn inserted_keys(ops: Seq<PoolOp>) -> Seq<u64>
    decreases ops.len(),
{
    if ops.len() == 0 {
        Seq::empty()
    } else {
        match ops.last() {
            PoolOp::Insert { key, event } => inserted_keys(ops.drop_last()).push(key),
            PoolOp::Collect => inserted_keys(ops.drop_last()),
        }
    }
}

/// The events of the insertions among `ops`, in their order.
pub open spec fn inserted_events(ops: Seq<PoolOp>) -> Seq<DanmakuView>
    decreases ops.len(),
{
    if ops.len() == 0 {
        Seq::empty()
    } else {
        match ops.last() {
            PoolOp::Insert { key, event } => inserted_events(ops.drop_last()).push(event),
            PoolOp::Collect => inserted_events(ops.drop_last()),
        }
    }
}

impl PoolModel {
    /// The pool of the given capacity that holds nothing.
    pub open spec fn empty(capacity: nat) -> PoolModel {
        PoolModel { stored: Map::empty(), window: Seq::empty(), issued: Set::empty(), capacity }
    }

    /// What every pool satisfies: it has room for a key; it has issued
    /// finitely many keys, the null key not among them; it stores events only
    /// under keys that it issued; and the window holds at most `capacity`
    /// keys, none of them twice, each with its event stored.
    pub open spec fn wf(self) -> bool {
        &&& self.capacity > 0
        &&& self.issued.finite()
        &&& !self.issued.contains(NULL_KEY_BITS)
        &&& self.stored.dom().finite()
        &&& self.stored.dom().subset_of(self.issued)
        &&& self.window.len() <= self.capacity
        &&& self.window.no_duplicates()
        &&& forall|i: int|
            0 <= i < self.window.len() ==> self.stored.dom().contains(#[trigger] self.window[i])
    }

    /// The pool after `event` was inserted under `key`.
    pub open spec fn inserted(self, key: u64, event: DanmakuView) -> PoolModel {
        PoolModel {
            stored: self.stored.insert(key, event),
            window: window_after_write(self.window, key, self.capacity),
            issued: self.issued.insert(key),
            capacity: self.capacity,
        }
    }

    /// The pool after a collection: only the events whose key is in the
    /// window are left.
    pub open spec fn collected(self) -> PoolModel {
        PoolModel {
            stored: self.stored.restrict(self.window.to_set()),
            window: self.window,
            issued: self.issued,
            capacity: self.capacity,
        }
    }

    /// What a lookup of `key` gives.
    pub open spec fn resolve(self, key: u64) -> Option<DanmakuView> {
        if self.stored.dom().contains(key) {
            Some(self.stored[key])
        } else {
            None
        }
    }

    /// The events of the window, oldest first.
    pub open spec fn replay(self) -> Seq<DanmakuView> {
        Seq::new(self.window.len(), |i: int| self.stored[self.window[i]])
    }

    /// Whether `op` can happen to this pool: an insertion comes with a key
    /// that the pool has never issued and that is not the null key.
    pub open spec fn admits(self, op: PoolOp) -> bool {
        match op {
            PoolOp::Insert { key, event } => !self.issued.contains(key) && key != NULL_KEY_BITS,
            PoolOp::Collect => true,
        }
    }

    /// The pool after `op`.
    pub open spec fn applied(self, op: PoolOp) -> PoolModel {
        match op {
            PoolOp::Insert { key, event } => self.inserted(key, event),
            PoolOp::Collect => self.collected(),
        }
    }

    /// The pool after the changes `ops`, one after the other.
    pub open spec fn applied_all(self, ops: Seq<PoolOp>) -> PoolModel
        decreases ops.len(),
    {
        if ops.len() == 0 {
            self
        } else {
            self.applied_all(ops.drop_last()).applied(ops.last())
        }
    }

    /// Whether the changes `ops` can happen to this pool one after the other.
    pub open spec fn admits_all(self, ops: Seq<PoolOp>) -> bool {
        forall|i: int| 0 <= i < ops.len() ==> self.applied_all(#[trigger] ops.take(i)).admits(ops[i])
    }
}

/// The empty pool is well formed.
pub proof fn lemma_empty_wf(capacity: nat)
    requires
        capacity > 0,
    ensures
        PoolModel::empty(capacity).wf(),
{
}

/// The null key resolves to nothing in every pool.
pub proof fn lemma_null_key_resolves_to_nothing(pool: PoolModel)
    requires
        pool.wf(),
    ensures
        pool.resolve(NULL_KEY_BITS).is_none(),
{
}

/// An insertion under a key that the pool does not store keeps the pool well
/// formed.
pub proof fn lemma_inserted_wf(pool: PoolModel, key: u64, event: DanmakuView)
    requires
        pool.wf(),
        !pool.stored.dom().contains(key),
        key != NULL_KEY_BITS,
    ensures
        pool.inserted(key, event).wf(),
{
    let after = pool.inserted(key, event);
    assert forall|i: int, j: int|
        0 <= i < after.window.len() && 0 <= j < after.window.len() && i != j implies after.window[i]
        != after.window[j] by {
        if pool.window.len() < pool.capacity {
            if i < pool.window.len() {
                assert(after.window[i] == pool.window[i]);
            }
            if j < pool.window.len() {
                assert(after.window[j] == pool.window[j]);
            }
        } else {
            if i < after.window.len() - 1 {
                assert(after.window[i] == pool.window[i + 1]);
            }
            if j < after.window.len() - 1 {
                assert(after.window[j] == pool.window[j + 1]);
            }
        }
    }
    assert forall|i: int| 0 <= i < after.window.len() implies after.stored.dom().contains(
        #[trigger] after.window[i],
    ) by {
        if pool.window.len() < pool.capacity {
            if i < pool.window.len() {
                assert(after.window[i] == pool.window[i]);
            }
        } else {
            if i < after.window.len() - 1 {
                assert(after.window[i] == pool.window[i + 1]);
            }
        }
    }
}

/// A collection keeps the pool well formed, and leaves exactly the events of
/// the window stored.
pub proof fn lemma_collected_wf(pool: PoolModel)
    requires
        pool.wf(),
    ensures
        pool.collected().wf(),
        pool.collected().stored.dom() == pool.window.to_set(),
        pool.collected().stored.len() == pool.window.len(),
        pool.collected().stored.len() <= pool.capacity,
        pool.collected().replay() == pool.replay(),
{
    let after = pool.collected();
    assert(after.stored.dom() =~= pool.window.to_set()) by {
        assert forall|k: u64| pool.window.to_set().contains(k) implies pool.stored.dom().contains(
            k,
        ) by {
            let i = choose|i: int| 0 <= i < pool.window.len() && pool.window[i] == k;
            assert(pool.stored.dom().contains(pool.window[i]));
        }
    }
    pool.window.unique_seq_to_set();
    assert forall|i: int| 0 <= i < after.window.len() implies after.stored.dom().contains(
        #[trigger] after.window[i],
    ) by {
        assert(pool.window.to_set().contains(pool.window[i]));
    }
    assert(after.replay() =~= pool.replay()) by {
        assert forall|i: int| 0 <= i < pool.window.len() implies after.replay()[i]
            == pool.replay()[i] by {
            assert(pool.window.to_set().contains(pool.window[i]));
        }
    }
}

/// The changes before the last of `ops` can happen where `ops` can.
proof fn lemma_admits_front(pool: PoolModel, ops: Seq<PoolOp>)
    requires
        pool.admits_all(ops),
        ops.len() > 0,
    ensures
        pool.admits_all(ops.drop_last()),
        pool.applied_all(ops.drop_last()).admits(ops.last()),
{
    let front = ops.drop_last();
    assert forall|i: int| 0 <= i < front.len() implies pool.applied_all(
        #[trigger] front.take(i),
    ).admits(front[i]) by {
        assert(front.take(i) =~= ops.take(i));
    }
    assert(ops.take(ops.len() - 1) =~= front);
}

/// Changes that can happen to a well-formed pool leave it well formed, with
/// the capacity that it had.
pub proof fn lemma_applied_all_wf(pool: PoolModel, ops: Seq<PoolOp>)
    requires
        pool.wf(),
        pool.admits_all(ops),
    ensures
        pool.applied_all(ops).wf(),
        pool.applied_all(ops).capacity == pool.capacity,
    decreases ops.len(),
{
    if ops.len() > 0 {
        lemma_admits_front(pool, ops);
        lemma_applied_all_wf(pool, ops.drop_last());
        let before = pool.applied_all(ops.drop_last());
        match ops.last() {
            PoolOp::Insert { key, event } => {
                lemma_inserted_wf(before, key, event);
            },
            PoolOp::Collect => {
                lemma_collected_wf(before);
            },
        }
    }
}

/// What insertions and collections leave of the empty pool: the keys that it
/// issued are all different, the window holds the most recent of them, as
/// many as the capacity, and each of these resolves to its event.
pub proof fn lemma_run_from_empty(capacity: nat, ops: Seq<PoolOp>)
    requires
        capacity > 0,
        PoolModel::empty(capacity).admits_all(ops),
    ensures
        PoolModel::empty(capacity).applied_all(ops).wf(),
        PoolModel::empty(capacity).applied_all(ops).capacity == capacity,
        inserted_keys(ops).len() == inserted_events(ops).len(),
        inserted_keys(ops).no_duplicates(),
        PoolModel::empty(capacity).applied_all(ops).issued == inserted_keys(ops).to_set(),
        PoolModel::empty(capacity).applied_all(ops).window == recent(inserted_keys(ops), capacity),
        forall|i: int|
            0 <= i < inserted_keys(ops).len() && inserted_keys(ops).len() - capacity <= i
                ==> PoolModel::empty(capacity).applied_all(ops).resolve(
                #[trigger] inserted_keys(ops)[i],
            ) == Some(inserted_events(ops)[i]),
    decreases ops.len(),
{
    let start = PoolModel::empty(capacity);
    let after = start.applied_all(ops);
    let keys = inserted_keys(ops);
    let events = inserted_events(ops);
    if ops.len() == 0 {
        assert(after.issued =~= keys.to_set());
        assert(after.window =~= recent(keys, capacity));
    } else {
        lemma_admits_front(start, ops);
        lemma_run_from_empty(capacity, ops.drop_last());
        let before = start.applied_all(ops.drop_last());
        let front = inserted_keys(ops.drop_last());
        let front_events = inserted_events(ops.drop_last());
        let n = front.len() as int;
        match ops.last() {
            PoolOp::Insert { key, event } => {
                assert(keys == front.push(key));
                assert(events == front_events.push(event));
                lemma_inserted_wf(before, key, event);
                assert(!front.to_set().contains(key));
                assert forall|i: int, j: int|
                    0 <= i < keys.len() && 0 <= j < keys.len() && i != j implies keys[i]
                    != keys[j] by {
                    if i < n {
                        assert(front.to_set().contains(front[i]));
                    }
                    if j < n {
                        assert(front.to_set().contains(front[j]));
                    }
                }
                assert(after.issued =~= keys.to_set()) by {
                    vstd::seq_lib::seq_to_set_is_finite(front);
                    front.lemma_push_to_set_commute(key);
                }
                assert(after.window =~= recent(keys, capacity));
                assert forall|i: int|
                    0 <= i < keys.len() && keys.len() - capacity <= i implies after.resolve(
                    #[trigger] keys[i],
                ) == Some(events[i]) by {
                    if i < n {
                        assert(front.to_set().contains(front[i]));
                        assert(before.resolve(front[i]) == Some(front_events[i]));
                    }
                }
            },
            PoolOp::Collect => {
                lemma_collected_wf(before);
                assert forall|i: int|
                    0 <= i < keys.len() && keys.len() - capacity <= i implies after.resolve(
                    #[trigger] keys[i],
                ) == Some(events[i]) by {
                    let shift = if n <= capacity {
                        0
                    } else {
                        n - capacity
                    };
                    assert(before.window[i - shift] == keys[i]);
                    assert(before.window.to_set().contains(keys[i]));
                    assert(before.resolve(front[i]) == Some(front_events[i]));
                }
            },
        }
    }
}

/// Bounded retention: after any insertions into the empty pool, with any
/// collections in between or after, the window replays the most recently
/// inserted events in the order of their insertion: as many as the capacity,
/// or all of them if fewer were inserted.
pub proof fn lemma_bounded_retention(capacity: nat, ops: Seq<PoolOp>)
    requires
        capacity > 0,
        PoolModel::empty(capacity).admits_all(ops),
    ensures
        PoolModel::empty(capacity).applied_all(ops).replay() == recent(
            inserted_events(ops),
            capacity,
        ),
        inserted_events(ops).len() > capacity ==> PoolModel::empty(capacity).applied_all(
            ops,
        ).replay().len() == capacity,
{
    let after = PoolModel::empty(capacity).applied_all(ops);
    let keys = inserted_keys(ops);
    let events = inserted_events(ops);
    lemma_run_from_empty(capacity, ops);
    let shift = if keys.len() <= capacity {
        0
    } else {
        keys.len() - capacity
    };
    assert forall|i: int| 0 <= i < after.window.len() implies after.replay()[i] == events[shift
        + i] by {
        assert(after.window[i] == keys[shift + i]);
        assert(after.resolve(keys[shift + i]) == Some(events[shift + i]));
    }
    assert(after.replay() =~= recent(events, capacity));
}

/// Eviction and collection: once more events than the capacity were inserted
/// into the empty pool, a collection leaves exactly as many events stored as
/// the capacity. The most recent keys still resolve to their events, and
/// every earlier key resolves to nothing.
pub proof fn lemma_eviction_and_collection(capacity: nat, ops: Seq<PoolOp>)
    requires
        capacity > 0,
        PoolModel::empty(capacity).admits_all(ops),
        inserted_keys(ops).len() > capacity,
    ensures
        PoolModel::empty(capacity).applied_all(ops).collected().stored.len() == capacity,
        forall|i: int|
            0 <= i < inserted_keys(ops).len() - capacity ==> PoolModel::empty(
                capacity,
            ).applied_all(ops).collected().resolve(#[trigger] inserted_keys(ops)[i]).is_none(),
        forall|i: int|
            inserted_keys(ops).len() - capacity <= i < inserted_keys(ops).len()
                ==> PoolModel::empty(capacity).applied_all(ops).collected().resolve(
                #[trigger] inserted_keys(ops)[i],
            ) == Some(inserted_events(ops)[i]),
{
    let full = PoolModel::empty(capacity).applied_all(ops);
    let keys = inserted_keys(ops);
    let n = keys.len() as int;
    lemma_run_from_empty(capacity, ops);
    lemma_collected_wf(full);
    assert forall|i: int| 0 <= i < n - capacity implies full.collected().resolve(
        #[trigger] keys[i],
    ).is_none() by {
        if full.window.to_set().contains(keys[i]) {
            let j = choose|j: int| 0 <= j < full.window.len() && full.window[j] == keys[i];
            assert(keys[n - capacity + j] == keys[i]);
        }
    }
    assert forall|i: int| n - capacity <= i < n implies full.collected().resolve(
        #[trigger] keys[i],
    ) == Some(inserted_events(ops)[i]) by {
        assert(full.window[i - (n - capacity)] == keys[i]);
        assert(full.window.to_set().contains(keys[i]));
    }
}

/// A collection after a collection changes nothing.
pub proof fn lemma_collected_idempotent(pool: PoolModel)
    ensures
        pool.collected().collected() == pool.collected(),
{
    assert(pool.collected().collected().stored =~= pool.collected().stored);
}

/// An insertion into a pool that is not yet full evicts nothing: the window
/// keeps every key and gains the new one at its end.
pub proof fn lemma_insert_below_capacity_keeps_all(pool: PoolModel, key: u64, event: DanmakuView)
    requires
        pool.window.len() < pool.capacity,
    ensures
        pool.inserted(key, event).window == pool.window.push(key),
{
}

/// Lookup validity: a key resolves to the event that was inserted under it
/// for as long as it is in the window, whatever insertions and collections
/// happen to the pool meanwhile. A key that has left the window does not
/// come back.
pub proof fn lemma_lookup_validity(pool: PoolModel, key: u64, event: DanmakuView, ops: Seq<PoolOp>)
    requires
        pool.wf(),
        pool.admits(PoolOp::Insert { key, event }),
        pool.inserted(key, event).admits_all(ops),
    ensures
        pool.inserted(key, event).applied_all(ops).wf(),
        pool.inserted(key, event).applied_all(ops).issued.contains(key),
        pool.inserted(key, event).applied_all(ops).window.contains(key) ==> pool.inserted(
            key,
            event,
        ).applied_all(ops).resolve(key) == Some(event),
    decreases ops.len(),
{
    let start = pool.inserted(key, event);
    lemma_inserted_wf(pool, key, event);
    if ops.len() > 0 {
        lemma_admits_front(start, ops);
        lemma_lookup_validity(pool, key, event, ops.drop_last());
        lemma_applied_all_wf(start, ops);
        let before = start.applied_all(ops.drop_last());
        let after = start.applied_all(ops);
        match ops.last() {
            PoolOp::Insert { key: other, event: added } => {
                if after.window.contains(key) {
                    let j = choose|j: int| 0 <= j < after.window.len() && after.window[j] == key;
                    if before.window.len() < before.capacity {
                        assert(before.window[j] == key);
                    } else {
                        assert(before.window[j + 1] == key);
                    }
                    assert(before.window.contains(key));
                }
            },
            PoolOp::Collect => {
                if after.window.contains(key) {
                    assert(before.window.to_set().contains(key));
                }
            },
        }
    }
}

/// A key outlasts the insertions that the window has room for: it is still
/// in the window, and resolves to its event, after fewer further insertions
/// than the capacity, with any collections in between.
pub proof fn lemma_lookup_survives(pool: PoolModel, key: u64, event: DanmakuView, ops: Seq<PoolOp>)
    requires
        pool.wf(),
        pool.admits(PoolOp::Insert { key, event }),
        pool.inserted(key, event).admits_all(ops),
        inserted_keys(ops).len() < pool.capacity,
    ensures
        inserted_keys(ops).len() < pool.inserted(key, event).applied_all(ops).window.len(),
        pool.inserted(key, event).applied_all(ops).window[pool.inserted(key, event).applied_all(
            ops,
        ).window.len() - 1 - inserted_keys(ops).len()] == key,
        pool.inserted(key, event).applied_all(ops).resolve(key) == Some(event),
    decreases ops.len(),
{
    let start = pool.inserted(key, event);
    let after = start.applied_all(ops);
    lemma_inserted_wf(pool, key, event);
    if ops.len() > 0 {
        lemma_admits_front(start, ops);
        lemma_applied_all_wf(start, ops.drop_last());
        lemma_lookup_survives(pool, key, event, ops.drop_last());
    }
    lemma_lookup_validity(pool, key, event, ops);
    let at = after.window.len() - 1 - inserted_keys(ops).len();
    assert(after.window[at] == key);
    assert(after.window.contains(key));
}

} // verus!
