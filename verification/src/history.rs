//! The window of recent keys, kept in a `heapless::HistoryBuffer`.
//!
//! Verus cannot look inside the buffer, so a window carries beside it, as a
//! ghost value, the keys that the buffer holds: oldest first, each by its
//! 64-bit form. The functions of this file are the only ones that touch
//! either, and each says what the call underneath does to those keys.

use crate::slots::key_bits;
use heapless::HistoryBuffer;
use slotmap::DefaultKey;
use vstd::prelude::*;

verus! {

/// The largest capacity that a window is made with. A window is built in
/// place before it moves to the heap, so its size stays far below that of a
/// thread's stack.
pub const CAPACITY_LIMIT: usize = 0xFFFF;

/// `heapless::HistoryBuffer`, which Verus carries through without looking
/// inside.
#[verifier::external_type_specification]
#[verifier::external_body]
#[verifier::reject_recursive_types(T)]
pub struct ExHistoryBuffer<T, const N: usize>(HistoryBuffer<T, N>);

/// A history buffer of `N` keys, with the keys that it holds.
pub struct Window<const N: usize> {
    buffer: HistoryBuffer<DefaultKey, N>,
    keys: Ghost<Seq<u64>>,
}

/// What a window of at most `capacity` keys holds after `bits` was written to
/// it: the new key comes last, and a full window loses its oldest key.
pub open spec fn window_after_write(window: Seq<u64>, bits: u64, capacity: nat) -> Seq<u64> {
    if window.len() < capacity {
        window.push(bits)
    } else {
        window.subrange(1, window.len() as int).push(bits)
    }
}

impl<const N: usize> Window<N> {
    /// The keys that the window holds, oldest first, each by its 64-bit form.
    pub closed spec fn keys(self) -> Seq<u64> {
        self.keys@
    }

    /// `HistoryBuffer::new`: a buffer that holds nothing. A buffer without
    /// room for a single key does not compile.
    #[verifier::external_body]
    pub(crate) fn new() -> (window: Window<N>)
        requires
            N > 0,
        ensures
            window.keys() == Seq::<u64>::empty(),
    {
        Window { buffer: HistoryBuffer::new(), keys: Ghost(Seq::empty()) }
    }

    /// `HistoryBuffer::write`: appends `key`; a buffer that already holds `N`
    /// keys loses the oldest of them.
    #[verifier::external_body]
    pub(crate) fn write(&mut self, key: DefaultKey)
        ensures
            final(self).keys() == window_after_write(old(self).keys(), key_bits(key), N as nat),
        no_unwind
    {
        self.buffer.write(key);
    }

    /// `HistoryBuffer::oldest_ordered`: the keys that the buffer holds, oldest
    /// first. There are never more than `N` of them.
    #[verifier::external_body]
    pub(crate) fn oldest_ordered(&self) -> (keys: Vec<DefaultKey>)
        ensures
            keys@.len() == self.keys().len(),
            keys@.len() <= N,
            forall|i: int| 0 <= i < keys@.len() ==> key_bits(#[trigger] keys@[i]) == self.keys()[i],
    {
        self.buffer.oldest_ordered().copied().collect()
    }
}

} // verus!
