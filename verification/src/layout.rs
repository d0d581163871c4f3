//! The two coordinate systems of a gap buffer and the content that the
//! storage holds.
//!
//! A buffer keeps its bytes in one contiguous storage that also contains an
//! unused region, the gap. Callers address bytes by *user* index, as if the
//! gap were not there; the storage is addressed by *physical* index. The gap
//! is the half-open physical range `[gap_start, gap_end)`.

use vstd::prelude::*;

verus! {

/// The gap bounds are ordered and lie inside a storage of `storage_len` bytes.
pub open spec fn gap_fits(storage_len: int, gap_start: int, gap_end: int) -> bool {
    0 <= gap_start <= gap_end <= storage_len
}

/// Physical index of user index `user`: positions before the gap keep their
/// index, positions at or behind it are shifted right by the gap's length.
pub open spec fn to_physical(user: int, gap_start: int, gap_end: int) -> int {
    if user < gap_start {
        user
    } else {
        user + (gap_end - gap_start)
    }
}

/// User index of physical index `physical`: positions at or behind the end of
/// the gap are shifted left by the gap's length, all others keep their index.
pub open spec fn to_user(physical: int, gap_start: int, gap_end: int) -> int {
    if physical >= gap_end {
        physical - (gap_end - gap_start)
    } else {
        physical
    }
}

/// The bytes that a storage shows to its user: everything before the gap
/// followed by everything behind it.
pub open spec fn live_content(storage: Seq<u8>, gap_start: int, gap_end: int) -> Seq<u8> {
    storage.subrange(0, gap_start) + storage.subrange(gap_end, storage.len() as int)
}

/// Converting a user index to a physical index and back gives the user index
/// again, wherever the gap lies.
pub proof fn lemma_to_user_inverts_to_physical(user: int, gap_start: int, gap_end: int)
    requires
        gap_start <= gap_end,
    ensures
        to_user(to_physical(user, gap_start, gap_end), gap_start, gap_end) == user,
{
}

/// Converting a physical index that does not lie inside the gap to a user
/// index and back gives the physical index again.
pub proof fn lemma_to_physical_inverts_to_user(physical: int, gap_start: int, gap_end: int)
    requires
        gap_start <= gap_end,
        physical < gap_start || gap_end <= physical,
    ensures
        to_physical(to_user(physical, gap_start, gap_end), gap_start, gap_end) == physical,
{
}

/// A physical index that comes from a user index never lies inside the gap,
/// and it stays inside the storage as long as the user index stays inside the
/// content (the end position included).
pub proof fn lemma_to_physical_avoids_gap(
    user: int,
    storage_len: int,
    gap_start: int,
    gap_end: int,
)
    requires
        gap_fits(storage_len, gap_start, gap_end),
        0 <= user <= storage_len - (gap_end - gap_start),
    ensures
        ({
            let physical: int = to_physical(user, gap_start, gap_end);
            &&& 0 <= physical <= storage_len
            &&& physical < gap_start || gap_end <= physical
            &&& user < storage_len - (gap_end - gap_start) ==> physical < storage_len
        }),
{
}

/// The content is as long as the storage without the gap.
pub proof fn lemma_live_content_len(storage: Seq<u8>, gap_start: int, gap_end: int)
    requires
        gap_fits(storage.len() as int, gap_start, gap_end),
    ensures
        live_content(storage, gap_start, gap_end).len() == storage.len() - (gap_end - gap_start),
{
}

/// The byte that a user sees at index `user` is the byte that the storage
/// holds at the physical index that belongs to it.
pub proof fn lemma_live_content_index(storage: Seq<u8>, gap_start: int, gap_end: int, user: int)
    requires
        gap_fits(storage.len() as int, gap_start, gap_end),
        0 <= user < storage.len() - (gap_end - gap_start),
    ensures
        live_content(storage, gap_start, gap_end)[user] == storage[to_physical(
            user,
            gap_start,
            gap_end,
        )],
{
}

/// The gap is invisible: two storages of the same length that agree on every
/// byte outside the gap show the same content, whatever the gap holds and
/// wherever it lies (at the front, in the middle, at the tail, or over the
/// whole storage).
pub proof fn lemma_gap_is_invisible(
    storage: Seq<u8>,
    other: Seq<u8>,
    gap_start: int,
    gap_end: int,
)
    requires
        gap_fits(storage.len() as int, gap_start, gap_end),
        other.len() == storage.len(),
        forall|i: int|
            0 <= i < storage.len() && !(gap_start <= i < gap_end) ==> other[i] == storage[i],
    ensures
        live_content(other, gap_start, gap_end) == live_content(storage, gap_start, gap_end),
{
    assert(live_content(other, gap_start, gap_end) =~= live_content(
        storage,
        gap_start,
        gap_end,
    ));
}

/// Sliding the gap one byte towards the tail, by copying the byte behind the
/// gap to the gap's first position, keeps the content.
pub proof fn lemma_slide_forward(storage: Seq<u8>, gap_start: int, gap_end: int)
    requires
        gap_fits(storage.len() as int, gap_start, gap_end),
        gap_end < storage.len(),
    ensures
        live_content(storage.update(gap_start, storage[gap_end]), gap_start + 1, gap_end + 1)
            == live_content(storage, gap_start, gap_end),
{
    assert(live_content(storage.update(gap_start, storage[gap_end]), gap_start + 1, gap_end + 1)
        =~= live_content(storage, gap_start, gap_end));
}

/// Sliding the gap one byte towards the front, by copying the byte before the
/// gap to the gap's last position, keeps the content.
pub proof fn lemma_slide_backward(storage: Seq<u8>, gap_start: int, gap_end: int)
    requires
        gap_fits(storage.len() as int, gap_start, gap_end),
        0 < gap_start,
    ensures
        live_content(
            storage.update(gap_end - 1, storage[gap_start - 1]),
            gap_start - 1,
            gap_end - 1,
        ) == live_content(storage, gap_start, gap_end),
{
    assert(live_content(
        storage.update(gap_end - 1, storage[gap_start - 1]),
        gap_start - 1,
        gap_end - 1,
    ) =~= live_content(storage, gap_start, gap_end));
}

/// Writing a byte to the first position of the gap and starting the gap one
/// position later inserts the byte into the content, at the user index at
/// which the gap stood.
pub proof fn lemma_fill_gap(storage: Seq<u8>, gap_start: int, gap_end: int, byte: u8)
    requires
        gap_fits(storage.len() as int, gap_start, gap_end),
        gap_start < gap_end,
    ensures
        live_content(storage.update(gap_start, byte), gap_start + 1, gap_end) == live_content(
            storage,
            gap_start,
            gap_end,
        ).insert(gap_start, byte),
{
    assert(live_content(storage.update(gap_start, byte), gap_start + 1, gap_end) =~= live_content(
        storage,
        gap_start,
        gap_end,
    ).insert(gap_start, byte));
}

/// Starting the gap one position earlier removes from the content the byte
/// that stood before the gap.
pub proof fn lemma_widen_gap_left(storage: Seq<u8>, gap_start: int, gap_end: int)
    requires
        gap_fits(storage.len() as int, gap_start, gap_end),
        0 < gap_start,
    ensures
        live_content(storage, gap_start - 1, gap_end) == live_content(
            storage,
            gap_start,
            gap_end,
        ).remove(gap_start - 1),
{
    assert(live_content(storage, gap_start - 1, gap_end) =~= live_content(
        storage,
        gap_start,
        gap_end,
    ).remove(gap_start - 1));
}

/// Ending the gap `count` positions later removes from the content the
/// `count` bytes that stood behind the gap, which are the bytes that the user
/// saw from the index at which the gap stands.
pub proof fn lemma_widen_gap_right(storage: Seq<u8>, gap_start: int, gap_end: int, count: int)
    requires
        gap_fits(storage.len() as int, gap_start, gap_end),
        0 <= count,
        gap_end + count <= storage.len(),
    ensures
        ({
            let content = live_content(storage, gap_start, gap_end);
            &&& storage.subrange(gap_end, gap_end + count) == content.subrange(
                gap_start,
                gap_start + count,
            )
            &&& live_content(storage, gap_start, gap_end + count) == content.subrange(0, gap_start)
                + content.subrange(gap_start + count, content.len() as int)
        }),
{
    let content = live_content(storage, gap_start, gap_end);
    assert(storage.subrange(gap_end, gap_end + count) =~= content.subrange(
        gap_start,
        gap_start + count,
    ));
    assert(live_content(storage, gap_start, gap_end + count) =~= content.subrange(0, gap_start)
        + content.subrange(gap_start + count, content.len() as int));
}

} // verus!
