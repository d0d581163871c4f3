//! How large a buffer's storage is made.
//!
//! Storage is content plus gap. A buffer starts with a small gap and, when an
//! insertion needs more room than the gap has, moves to a storage that holds
//! the new content and a fresh gap as large as that content, so that the
//! cost of moving is spread over the insertions that follow.

use vstd::prelude::*;

verus! {

/// Size of the storage of an empty buffer.
pub const DEFAULT_BUFFER_CAPACITY: usize = 10;

/// Size of the gap behind the initial content of a buffer, and the least
/// size of the gap that is left over when storage has grown.
pub const INITIAL_GAP_SIZE: usize = 10;

/// A gap of `wanted` bytes beside `len` bytes of content, cut down to what
/// fits where both together would exceed the largest storage.
pub open spec fn bounded_gap(wanted: nat, len: nat) -> nat {
    if len + wanted <= usize::MAX {
        wanted
    } else {
        (usize::MAX - len) as nat
    }
}

/// The gap behind `len` bytes of initial content.
pub open spec fn initial_gap(len: nat) -> nat {
    bounded_gap(INITIAL_GAP_SIZE as nat, len)
}

/// The gap that is left over when storage has grown to take a content of
/// `len` bytes: as large as the content, and no smaller than
/// `INITIAL_GAP_SIZE`.
pub open spec fn spare_gap(len: nat) -> nat {
    bounded_gap(
        if len < INITIAL_GAP_SIZE {
            INITIAL_GAP_SIZE as nat
        } else {
            len
        },
        len,
    )
}

/// Size of the storage that is made to take a content of `len` bytes: the
/// content with its spare gap.
pub open spec fn grown_capacity(len: nat) -> nat {
    len + spare_gap(len)
}

/// Size of the storage after `extra` bytes have been inserted into a content
/// of `len` bytes held in a storage of `capacity` bytes: unchanged where the
/// gap has room for them, and otherwise grown to take the new content.
pub open spec fn capacity_after_insert(capacity: nat, len: nat, extra: nat) -> nat {
    if len + extra <= capacity {
        capacity
    } else {
        grown_capacity(len + extra)
    }
}

/// Capacity growth: on insertion the capacity never shrinks, always holds the
/// new content, and strictly grows exactly when the gap is too small for the
/// inserted bytes.
pub proof fn lemma_capacity_grows(capacity: nat, len: nat, extra: nat)
    requires
        len <= capacity <= usize::MAX,
        len + extra <= usize::MAX,
    ensures
        capacity <= capacity_after_insert(capacity, len, extra) <= usize::MAX,
        capacity_after_insert(capacity, len, extra) >= len + extra,
        capacity_after_insert(capacity, len, extra) > capacity <==> extra > capacity - len,
{
}

/// Computes [`bounded_gap`].
pub fn gap_beside(wanted: usize, len: usize) -> (gap: usize)
    ensures
        gap == bounded_gap(wanted as nat, len as nat),
{
    if wanted <= usize::MAX - len {
        wanted
    } else {
        usize::MAX - len
    }
}

} // verus!
