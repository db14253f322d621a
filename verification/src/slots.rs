//! The arena that stores the events, `slotmap::SlotMap`, as the pool sees it:
//! a finite map from the 64-bit form of a key to the event stored under it,
//! and the set of the keys that it has handed out so far.

use crate::danmaku::Danmaku;
use slotmap::{DefaultKey, Key, SlotMap};
use std::collections::HashSet;
use vstd::prelude::*;

verus! {

/// The slot map that holds the events. Verus cannot take the declaration of
/// `SlotMap` itself, whose key type is bound by a trait of that crate, so the
/// pool holds it inside this struct and sees it through `slot_entries` and
/// `slot_issued`.
#[verifier::external_body]
pub struct Slots {
    inner: SlotMap<DefaultKey, Danmaku>,
}

/// `slotmap::DefaultKey`, the key of the slot map, which Verus carries
/// through without looking inside.
#[verifier::external_type_specification]
#[verifier::external_body]
pub struct ExDefaultKey(DefaultKey);

/// The 64-bit form of a key: what `KeyData::as_ffi` returns for it. Two keys
/// are the same key exactly when their 64-bit forms are equal.
pub uninterp spec fn key_bits(key: DefaultKey) -> u64;

/// The entries of a slot map, each under the 64-bit form of its key.
pub uninterp spec fn slot_entries(slots: Slots) -> Map<u64, Danmaku>;

/// The keys that a slot map has handed out since it was made, each by its
/// 64-bit form, removed ones included.
pub uninterp spec fn slot_issued(slots: Slots) -> Set<u64>;

/// The map without entries.
pub open spec fn no_entries() -> Map<u64, Danmaku> {
    Map::empty()
}

/// The number of entries at which `SlotMap::insert` panics.
pub const SLOT_LIMIT: usize = 0xFFFF_FFFE;

/// The number of keys that a slot map hands out before one of them can come
/// a second time: a slot counts its occupations in 31 bits.
pub const KEY_LIMIT: u64 = 0x8000_0000;

/// The 64-bit form of the null key, which no slot map hands out: slot
/// `u32::MAX`, in its first occupation.
pub const NULL_KEY_BITS: u64 = 0x1_FFFF_FFFF;

/// `Key::data` followed by `KeyData::as_ffi`: the 64-bit form of `key`.
#[verifier::external_body]
pub(crate) fn bits_of(key: DefaultKey) -> (bits: u64)
    ensures
        bits == key_bits(key),
{
    key.data().as_ffi()
}

/// `Key::null`: the null key.
#[verifier::external_body]
pub(crate) fn null_key() -> (key: DefaultKey)
    ensures
        key_bits(key) == NULL_KEY_BITS,
{
    DefaultKey::null()
}

/// `SlotMap::with_capacity_and_key`: a slot map without entries, which has
/// handed out no key. The capacity is kept small, so that the size of the
/// allocation cannot overflow.
#[verifier::external_body]
pub(crate) fn slots_with_capacity(capacity: usize) -> (slots: Slots)
    requires
        capacity <= 0xFFFF,
    ensures
        slot_entries(slots) == no_entries(),
        slot_issued(slots) == Set::<u64>::empty(),
{
    Slots { inner: SlotMap::with_capacity_and_key(capacity) }
}

/// `SlotMap::len`: the number of entries.
#[verifier::external_body]
pub(crate) fn slots_len(slots: &Slots) -> (len: usize)
    ensures
        len == slot_entries(*slots).dom().len(),
{
    slots.inner.len()
}

/// `SlotMap::insert`: stores `value` under a key that no entry had before the
/// call, and returns that key. The other entries stay as they were. The key
/// is never the null key. It is also none of the keys handed out before,
/// removed ones included, as long as fewer than `KEY_LIMIT` keys were handed
/// out: only after that many occupations can a slot repeat a key. The slot
/// map panics when it is full, so the caller keeps it below `SLOT_LIMIT`.
#[verifier::external_body]
pub(crate) fn slots_insert(slots: &mut Slots, value: Danmaku) -> (key: DefaultKey)
    requires
        slot_entries(*old(slots)).dom().finite(),
        slot_entries(*old(slots)).dom().len() < SLOT_LIMIT,
    ensures
        key_bits(key) != NULL_KEY_BITS,
        !slot_entries(*old(slots)).dom().contains(key_bits(key)),
        slot_entries(*final(slots)) == slot_entries(*old(slots)).insert(key_bits(key), value),
        slot_issued(*final(slots)) == slot_issued(*old(slots)).insert(key_bits(key)),
        slot_issued(*old(slots)).finite() && slot_issued(*old(slots)).len() < KEY_LIMIT
            ==> !slot_issued(*old(slots)).contains(key_bits(key)),
    no_unwind
{
    slots.inner.insert(value)
}

/// `SlotMap::get`: the entry under `key`, if there is one.
#[verifier::external_body]
pub(crate) fn slots_get(slots: &Slots, key: DefaultKey) -> (found: Option<&Danmaku>)
    ensures
        found.is_some() == slot_entries(*slots).dom().contains(key_bits(key)),
        found.is_some() ==> *found.unwrap() == slot_entries(*slots)[key_bits(key)],
{
    slots.inner.get(key)
}

/// Whether the key with the 64-bit form `bits` is one of `live`.
pub(crate) fn is_live(live: &HashSet<u64>, bits: u64) -> (kept: bool)
    ensures
        kept == live@.contains(bits),
{
    broadcast use vstd::std_specs::hash::group_hash_axioms;

    live.contains(&bits)
}

/// `SlotMap::retain`: drops every entry whose key, by its 64-bit form, is not
/// in `live`, and keeps the others as they are. It hands out no key.
#[verifier::external_body]
pub(crate) fn slots_retain(slots: &mut Slots, live: &HashSet<u64>)
    ensures
        slot_entries(*final(slots)) == slot_entries(*old(slots)).restrict(live@),
        slot_issued(*final(slots)) == slot_issued(*old(slots)),
    no_unwind
{
    slots.inner.retain(|key, _| is_live(live, key.data().as_ffi()));
}

} // verus!
