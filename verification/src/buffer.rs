//! The gap buffer itself.

use crate::error::GapBufferError;
use crate::growth::{
    capacity_after_insert, gap_beside, grown_capacity, initial_gap, DEFAULT_BUFFER_CAPACITY,
    INITIAL_GAP_SIZE,
};
use crate::layout::{
    gap_fits, lemma_fill_gap, lemma_live_content_index, lemma_slide_backward,
    lemma_slide_forward, lemma_widen_gap_left, lemma_widen_gap_right, live_content, to_physical,
    to_user,
};
use crate::text::Text;
use std::ops::Range;
use vstd::prelude::*;
use vstd::utf8::{encode_utf8, encode_utf8_decode_utf8, valid_utf8};

verus! {

/// A sequence of bytes with an edit position, the point, kept in a storage
/// that holds an unused gap. Insertions at the point fill the gap and
/// removals before it widen the gap, so that edits near one position move no
/// content.
pub struct GapBuffer {
    buffer: Vec<u8>,
    point: usize,
    gap: Range<usize>,
}

impl View for GapBuffer {
    type V = Text;

    /// What the user sees: the content without the gap, and the point.
    open spec fn view(&self) -> Text {
        Text {
            bytes: live_content(self.storage(), self.spec_gap_start(), self.spec_gap_end()),
            point: self.spec_point(),
        }
    }
}

impl GapBuffer {
    /// The storage: content and gap together.
    pub closed spec fn storage(&self) -> Seq<u8> {
        self.buffer@
    }

    /// Physical index of the first byte of the gap.
    pub closed spec fn spec_gap_start(&self) -> int {
        self.gap.start as int
    }

    /// Physical index of the first byte behind the gap.
    pub closed spec fn spec_gap_end(&self) -> int {
        self.gap.end as int
    }

    /// The point, as a user index.
    pub closed spec fn spec_point(&self) -> int {
        self.point as int
    }

    /// Size of the storage.
    pub open spec fn spec_capacity(&self) -> nat {
        self.storage().len()
    }

    /// The gap lies inside the storage and the point inside the content or
    /// directly behind it. This holds of every buffer at all times: the
    /// operations need no precondition for it, and a verified caller learns
    /// it of any buffer in its hands from `use_type_invariant`.
    #[verifier::type_invariant]
    pub open spec fn wf(&self) -> bool {
        &&& gap_fits(self.storage().len() as int, self.spec_gap_start(), self.spec_gap_end())
        &&& 0 <= self.spec_point() <= self.storage().len() - (self.spec_gap_end()
            - self.spec_gap_start())
    }

    /// A well-formed buffer shows a valid text, whose length is the size of
    /// the storage without the gap, and its storage fits in memory.
    pub proof fn lemma_wf_view(&self)
        requires
            self.wf(),
        ensures
            self@.valid(),
            self@.len() + (self.spec_gap_end() - self.spec_gap_start()) == self.spec_capacity(),
            self.spec_capacity() <= usize::MAX,
    {
        assert(self.buffer@.len() == self.buffer.len());
    }

    /// An empty buffer: no content, the point at index 0, and a gap that
    /// spans the whole storage of `DEFAULT_BUFFER_CAPACITY` bytes.
    pub fn new() -> (fresh: GapBuffer)
        ensures
            fresh.wf(),
            fresh@ == Text::empty(),
            fresh.spec_capacity() == DEFAULT_BUFFER_CAPACITY,
            fresh.spec_gap_start() == 0,
            fresh.spec_gap_end() == DEFAULT_BUFFER_CAPACITY,
    {
        let buffer: Vec<u8> = vec![0; DEFAULT_BUFFER_CAPACITY];
        let fresh = GapBuffer { buffer, point: 0, gap: 0..DEFAULT_BUFFER_CAPACITY };
        assert(fresh@.bytes =~= Seq::<u8>::empty());
        fresh
    }

    /// A buffer that holds the bytes of `content`, with the point behind the
    /// last byte and the gap at the tail.
    pub fn from(content: String) -> (fresh: GapBuffer)
        ensures
            fresh.wf(),
            fresh@ == Text::of_chars(content@),
            fresh.spec_gap_start() == fresh@.len(),
            fresh.spec_capacity() == fresh@.len() + initial_gap(fresh@.len()),
    {
        let bytes = content.as_str().as_bytes();
        let length: usize = bytes.len();
        let gap: usize = gap_beside(INITIAL_GAP_SIZE, length);
        let mut buffer: Vec<u8> = Vec::with_capacity(length + gap);
        let mut copied: usize = 0;
        while copied < length
            invariant
                copied <= length == bytes@.len(),
                buffer@ == bytes@.subrange(0, copied as int),
            decreases length - copied,
        {
            buffer.push(bytes[copied]);
            copied += 1;
            assert(buffer@ =~= bytes@.subrange(0, copied as int));
        }
        let mut filled: usize = 0;
        while filled < gap
            invariant
                filled <= gap,
                buffer@.len() == length + filled,
                buffer@.subrange(0, length as int) == bytes@,
            decreases gap - filled,
        {
            buffer.push(0);
            filled += 1;
            assert(buffer@.subrange(0, length as int) =~= bytes@);
        }
        let fresh = GapBuffer { buffer, point: length, gap: length..length + gap };
        assert(fresh@.bytes =~= bytes@);
        fresh
    }

    /// Size of the storage: the content and the gap together.
    pub fn capacity(&self) -> (capacity: usize)
        ensures
            capacity == self.spec_capacity(),
            capacity == self@.len() + (self.spec_gap_end() - self.spec_gap_start()),
    {
        proof {
            use_type_invariant(self);
        }
        self.buffer.len()
    }

    /// Number of bytes of content.
    pub fn len(&self) -> (length: usize)
        ensures
            length == self@.len(),
    {
        proof {
            use_type_invariant(self);
        }
        let gap_length: usize = self.gap.end - self.gap.start;
        self.buffer.len() - gap_length
    }

    /// Moves the point to `index`, which may be any index of the content or
    /// the position behind its last byte. The gap stays where it is.
    pub fn set_point(&mut self, index: usize) -> (outcome: Result<(), GapBufferError>)
        ensures
            final(self).wf(),
            match outcome {
                Ok(()) => {
                    &&& index <= old(self)@.len()
                    &&& final(self)@ == old(self)@.with_point(index as int)
                    &&& final(self).storage() == old(self).storage()
                    &&& final(self).spec_gap_start() == old(self).spec_gap_start()
                    &&& final(self).spec_gap_end() == old(self).spec_gap_end()
                },
                Err(error) => {
                    &&& index > old(self)@.len()
                    &&& error == (GapBufferError::OutOfBounds {
                        index,
                        length: old(self)@.len() as usize,
                    })
                    &&& *final(self) == *old(self)
                },
            },
    {
        proof {
            use_type_invariant(&*self);
        }
        let length: usize = self.len();
        if index > length {
            return Err(GapBufferError::OutOfBounds { index, length });
        }
        self.point = index;
        Ok(())
    }

    /// The point.
    pub fn get_point(&self) -> (point: usize)
        ensures
            point == self@.point,
            point <= self@.len(),
    {
        proof {
            use_type_invariant(self);
        }
        self.point
    }

    /// Converts a user index, which may be any index of the content or the
    /// position behind its last byte, to the physical index that it has in
    /// the storage.
    pub fn convert_user_index_to_gap_index(&self, index: usize) -> (physical: usize)
        requires
            index <= self@.len(),
        ensures
            physical == to_physical(index as int, self.spec_gap_start(), self.spec_gap_end()),
            physical <= self.spec_capacity(),
    {
        proof {
            use_type_invariant(self);
            self.lemma_wf_view();
        }
        if index < self.gap.start {
            index
        } else {
            (self.gap.end - self.gap.start) + index
        }
    }

    /// Converts a physical index to the user index of the byte that the
    /// storage holds there. An index inside the gap addresses no content and
    /// is handed back as it is.
    pub fn convert_gap_index_to_user_index(&self, index: usize) -> (user: usize)
        ensures
            user == to_user(index as int, self.spec_gap_start(), self.spec_gap_end()),
    {
        proof {
            use_type_invariant(self);
        }
        if index >= self.gap.end {
            index - (self.gap.end - self.gap.start)
        } else {
            index
        }
    }

    /// Whether the gap starts before the physical position of the point.
    /// With the point at the start of a gap that is not empty this is true
    /// as well: the physical position of the point is then the end of the
    /// gap.
    pub fn is_gap_start_before_point(&self) -> (before: bool)
        ensures
            before == (self.spec_gap_start() < to_physical(
                self@.point,
                self.spec_gap_start(),
                self.spec_gap_end(),
            )),
    {
        proof {
            use_type_invariant(self);
        }
        self.gap.start < self.convert_user_index_to_gap_index(self.point)
    }

    /// Whether the gap starts behind the physical position of the point.
    pub fn is_gap_start_after_point(&self) -> (after: bool)
        ensures
            after == (self.spec_gap_start() > to_physical(
                self@.point,
                self.spec_gap_start(),
                self.spec_gap_end(),
            )),
            after == (self@.point < self.spec_gap_start()),
    {
        proof {
            use_type_invariant(self);
        }
        self.gap.start > self.convert_user_index_to_gap_index(self.point)
    }

    /// Slides the gap `count` bytes towards the tail: the `count` bytes
    /// behind the gap move, one by one, to the front of the gap.
    fn slide_gap_forward(&mut self, count: usize)
        requires
            old(self).spec_gap_end() + count <= old(self).storage().len(),
        ensures
            final(self).storage().len() == old(self).storage().len(),
            final(self).spec_gap_start() == old(self).spec_gap_start() + count,
            final(self).spec_gap_end() == old(self).spec_gap_end() + count,
            final(self)@ == old(self)@,
            forall|i: int|
                0 <= i < old(self).storage().len() && !(old(self).spec_gap_start() <= i
                    < old(self).spec_gap_end() + count) ==> final(self).storage()[i] == old(
                    self,
                ).storage()[i],
            count == 0 ==> *final(self) == *old(self),
    {
        proof {
            use_type_invariant(&*self);
        }
        let mut moved: usize = 0;
        while moved < count
            invariant
                moved <= count,
                old(self).wf(),
                old(self).gap.end + count <= old(self).buffer@.len(),
                self.buffer@.len() == old(self).buffer@.len(),
                self.gap.start == old(self).gap.start + moved,
                self.gap.end == old(self).gap.end + moved,
                self.point == old(self).point,
                live_content(self.buffer@, self.gap.start as int, self.gap.end as int)
                    == live_content(
                    old(self).buffer@,
                    old(self).gap.start as int,
                    old(self).gap.end as int,
                ),
                forall|i: int|
                    0 <= i < self.buffer@.len() && !(old(self).gap.start <= i < old(self).gap.end
                        + count) ==> self.buffer@[i] == old(self).buffer@[i],
                moved == 0 ==> *self == *old(self),
            decreases count - moved,
        {
            proof {
                assert(self.buffer@.len() == self.buffer.len());
                lemma_slide_forward(self.buffer@, self.gap.start as int, self.gap.end as int);
            }
            let byte: u8 = self.buffer[self.gap.end];
            self.buffer[self.gap.start] = byte;
            self.gap = self.gap.start + 1..self.gap.end + 1;
            moved += 1;
        }
    }

    /// Slides the gap `count` bytes towards the front: the `count` bytes
    /// before the gap move, one by one, to the back of the gap.
    fn slide_gap_backward(&mut self, count: usize)
        requires
            count <= old(self).spec_gap_start(),
        ensures
            final(self).storage().len() == old(self).storage().len(),
            final(self).spec_gap_start() == old(self).spec_gap_start() - count,
            final(self).spec_gap_end() == old(self).spec_gap_end() - count,
            final(self)@ == old(self)@,
            forall|i: int|
                0 <= i < old(self).storage().len() && !(old(self).spec_gap_start() - count <= i
                    < old(self).spec_gap_end()) ==> final(self).storage()[i] == old(
                    self,
                ).storage()[i],
            count == 0 ==> *final(self) == *old(self),
    {
        proof {
            use_type_invariant(&*self);
        }
        let mut moved: usize = 0;
        while moved < count
            invariant
                moved <= count <= old(self).gap.start,
                old(self).wf(),
                self.buffer@.len() == old(self).buffer@.len(),
                self.gap.start == old(self).gap.start - moved,
                self.gap.end == old(self).gap.end - moved,
                self.point == old(self).point,
                live_content(self.buffer@, self.gap.start as int, self.gap.end as int)
                    == live_content(
                    old(self).buffer@,
                    old(self).gap.start as int,
                    old(self).gap.end as int,
                ),
                forall|i: int|
                    0 <= i < self.buffer@.len() && !(old(self).gap.start - count <= i < old(
                        self,
                    ).gap.end) ==> self.buffer@[i] == old(self).buffer@[i],
                moved == 0 ==> *self == *old(self),
            decreases count - moved,
        {
            proof {
                lemma_slide_backward(self.buffer@, self.gap.start as int, self.gap.end as int);
            }
            let byte: u8 = self.buffer[self.gap.start - 1];
            self.buffer[self.gap.end - 1] = byte;
            self.gap = self.gap.start - 1..self.gap.end - 1;
            moved += 1;
        }
    }

    /// Moves the gap so that it starts at the point, by sliding it over the
    /// bytes that lie between. The byte at the point, if there is one, then
    /// sits directly behind the gap. The content and the point stay as they
    /// are, and so does every byte of the storage outside the stretch that
    /// the old and the new gap span together. Where the gap already starts at
    /// the point, nothing changes at all.
    pub fn prepare_gap(&mut self)
        ensures
            final(self).wf(),
            final(self)@ == old(self)@,
            final(self).spec_gap_start() == old(self)@.point,
            final(self).spec_gap_end() == to_physical(
                old(self)@.point,
                final(self).spec_gap_start(),
                final(self).spec_gap_end(),
            ),
            final(self).spec_gap_end() - final(self).spec_gap_start() == old(self).spec_gap_end()
                - old(self).spec_gap_start(),
            final(self).spec_capacity() == old(self).spec_capacity(),
            forall|i: int|
                0 <= i < old(self).spec_capacity() && (i < old(self).spec_gap_start() && i
                    < final(self).spec_gap_start() || i >= old(self).spec_gap_end() && i
                    >= final(self).spec_gap_end()) ==> final(self).storage()[i] == old(
                    self,
                ).storage()[i],
            old(self).spec_gap_start() == old(self)@.point ==> *final(self) == *old(self),
    {
        proof {
            use_type_invariant(&*self);
        }
        if self.is_gap_start_before_point() {
            let count: usize = self.convert_user_index_to_gap_index(self.point) - self.gap.end;
            self.slide_gap_forward(count);
        } else if self.is_gap_start_after_point() {
            let count: usize = self.gap.start - self.convert_user_index_to_gap_index(self.point);
            self.slide_gap_backward(count);
        }
    }

    /// Moves the content to a larger storage, with a gap at the same place
    /// that has room for `extra` bytes, which the gap lacks so far, and for
    /// the spare gap that is due once they are written.
    fn grow(&mut self, extra: usize)
        requires
            old(self).spec_gap_end() - old(self).spec_gap_start() < extra,
            old(self)@.len() + extra <= usize::MAX,
        ensures
            final(self).wf(),
            final(self)@ == old(self)@,
            final(self).spec_gap_start() == old(self).spec_gap_start(),
            final(self).spec_capacity() == grown_capacity((old(self)@.len() + extra) as nat),
    {
        proof {
            use_type_invariant(&*self);
        }
        let length: usize = self.len();
        let needed: usize = length + extra;
        let wanted: usize = if needed < INITIAL_GAP_SIZE {
            INITIAL_GAP_SIZE
        } else {
            needed
        };
        let gap: usize = extra + gap_beside(wanted, needed);
        let total: usize = self.buffer.len();
        let mut grown: Vec<u8> = Vec::with_capacity(length + gap);
        let mut index: usize = 0;
        while index < self.gap.start
            invariant
                self.wf(),
                index <= self.gap.start,
                grown@ == self.buffer@.subrange(0, index as int),
            decreases self.gap.start - index,
        {
            grown.push(self.buffer[index]);
            index += 1;
            assert(grown@ =~= self.buffer@.subrange(0, index as int));
        }
        let mut filled: usize = 0;
        while filled < gap
            invariant
                self.wf(),
                filled <= gap,
                grown@.len() == self.gap.start + filled,
                grown@.subrange(0, self.gap.start as int) == self.buffer@.subrange(
                    0,
                    self.gap.start as int,
                ),
            decreases gap - filled,
        {
            grown.push(0);
            filled += 1;
            assert(grown@.subrange(0, self.gap.start as int) =~= self.buffer@.subrange(
                0,
                self.gap.start as int,
            ));
        }
        let mut index: usize = self.gap.end;
        while index < total
            invariant
                self.wf(),
                total == self.buffer@.len(),
                self.gap.end <= index <= total,
                grown@.len() == self.gap.start + gap + (index - self.gap.end),
                grown@.subrange(0, self.gap.start as int) == self.buffer@.subrange(
                    0,
                    self.gap.start as int,
                ),
                grown@.subrange(self.gap.start + gap, grown@.len() as int)
                    == self.buffer@.subrange(self.gap.end as int, index as int),
            decreases total - index,
        {
            grown.push(self.buffer[index]);
            index += 1;
            assert(grown@.subrange(0, self.gap.start as int) =~= self.buffer@.subrange(
                0,
                self.gap.start as int,
            ));
            assert(grown@.subrange(self.gap.start + gap, grown@.len() as int)
                =~= self.buffer@.subrange(self.gap.end as int, index as int));
        }
        self.buffer = grown;
        self.gap = self.gap.start..self.gap.start + gap;
    }

    /// Inserts `byte` at the point. The point keeps its index: it stands
    /// before the inserted byte afterwards, and a caller who goes on typing
    /// moves it. The gap ends up directly behind the inserted byte. Storage
    /// grows where the gap is used up.
    pub fn insert(&mut self, byte: u8)
        requires
            old(self)@.len() < usize::MAX,
        ensures
            final(self).wf(),
            final(self)@ == old(self)@.insert(byte),
            final(self).spec_gap_start() == old(self)@.point + 1,
            final(self).spec_capacity() == capacity_after_insert(
                old(self).spec_capacity(),
                old(self)@.len(),
                1,
            ),
    {
        self.prepare_gap();
        if self.gap.start == self.gap.end {
            self.grow(1);
        }
        proof {
            use_type_invariant(&*self);
            lemma_fill_gap(self.buffer@, self.gap.start as int, self.gap.end as int, byte);
        }
        self.buffer[self.point] = byte;
        self.gap.start += 1;
    }

    /// Inserts `bytes` at the point, in order. The point keeps its index: it
    /// stands before the first inserted byte afterwards. The gap ends up
    /// directly behind the last inserted byte. Where the gap has no room for
    /// all the bytes, storage grows once, before the first byte is written.
    pub fn insert_bytes(&mut self, bytes: Vec<u8>)
        requires
            old(self)@.len() + bytes@.len() <= usize::MAX,
        ensures
            final(self).wf(),
            final(self)@ == old(self)@.insert_bytes(bytes@),
            final(self).spec_gap_start() == old(self)@.point + bytes@.len(),
            final(self).spec_capacity() == capacity_after_insert(
                old(self).spec_capacity(),
                old(self)@.len(),
                bytes@.len(),
            ),
    {
        proof {
            use_type_invariant(&*self);
        }
        self.prepare_gap();
        let count: usize = bytes.len();
        if self.gap.end - self.gap.start < count {
            self.grow(count);
        }
        let mut index: usize = self.point;
        let mut written: usize = 0;
        while written < count
            invariant
                old(self).wf(),
                count == bytes@.len(),
                written <= count,
                self.point == old(self).point,
                index == self.point + written,
                self.gap.start == index,
                count - written <= self.gap.end - self.gap.start,
                gap_fits(self.buffer@.len() as int, self.gap.start as int, self.gap.end as int),
                self.buffer@.len() - (self.gap.end - self.gap.start) == old(self)@.len() + written,
                self.buffer@.len() == capacity_after_insert(
                    old(self).spec_capacity(),
                    old(self)@.len(),
                    count as nat,
                ),
                live_content(self.buffer@, self.gap.start as int, self.gap.end as int) == old(
                    self,
                )@.insert_bytes(bytes@.subrange(0, written as int)).bytes,
            decreases count - written,
        {
            proof {
                lemma_fill_gap(
                    self.buffer@,
                    self.gap.start as int,
                    self.gap.end as int,
                    bytes@[written as int],
                );
                assert(old(self)@.insert_bytes(bytes@.subrange(0, written as int)).bytes.insert(
                    index as int,
                    bytes@[written as int],
                ) =~= old(self)@.insert_bytes(bytes@.subrange(0, written + 1)).bytes);
            }
            self.buffer[index] = bytes[written];
            index += 1;
            self.gap.start += 1;
            written += 1;
        }
        assert(bytes@.subrange(0, count as int) =~= bytes@);
    }

    /// Removes the byte before the point and moves the point one to the left.
    /// With the point at index 0 there is no such byte, and the buffer stays
    /// as it is.
    pub fn remove(&mut self) -> (outcome: Result<(), GapBufferError>)
        ensures
            final(self).wf(),
            match outcome {
                Ok(()) => {
                    &&& old(self)@.point > 0
                    &&& final(self)@ == old(self)@.remove()
                    &&& final(self).spec_gap_start() == final(self)@.point
                    &&& final(self).spec_capacity() == old(self).spec_capacity()
                },
                Err(error) => {
                    &&& old(self)@.point == 0
                    &&& error == GapBufferError::NothingBeforePoint
                    &&& *final(self) == *old(self)
                },
            },
    {
        proof {
            use_type_invariant(&*self);
        }
        if self.point == 0 {
            return Err(GapBufferError::NothingBeforePoint);
        }
        self.prepare_gap();
        proof {
            lemma_widen_gap_left(self.buffer@, self.gap.start as int, self.gap.end as int);
        }
        self.point -= 1;
        self.gap.start -= 1;
        Ok(())
    }

    /// Removes the bytes at the user indices `range.start <= i < range.end`
    /// and hands them back. A point before the range stays, a point inside it
    /// moves to the start of the range, and a point behind it moves left by
    /// the length of the range. A range that is reversed or reaches behind
    /// the content is refused, and the buffer stays as it is.
    pub fn remove_bytes(&mut self, range: Range<usize>) -> (outcome: Result<
        Vec<u8>,
        GapBufferError,
    >)
        ensures
            final(self).wf(),
            match outcome {
                Ok(removed) => {
                    &&& range.start <= range.end <= old(self)@.len()
                    &&& removed@ == old(self)@.range(range.start as int, range.end as int)
                    &&& final(self)@ == old(self)@.remove_range(
                        range.start as int,
                        range.end as int,
                    )
                    &&& final(self).spec_gap_start() == range.start
                    &&& final(self).spec_capacity() == old(self).spec_capacity()
                },
                Err(error) => {
                    &&& !(range.start <= range.end <= old(self)@.len())
                    &&& error == (GapBufferError::InvalidRange {
                        start: range.start,
                        end: range.end,
                        length: old(self)@.len() as usize,
                    })
                    &&& *final(self) == *old(self)
                },
            },
    {
        proof {
            use_type_invariant(&*self);
        }
        let start: usize = range.start;
        let end: usize = range.end;
        let length: usize = self.len();
        if start > end || end > length {
            return Err(GapBufferError::InvalidRange { start, end, length });
        }
        let count: usize = end - start;
        let point: usize = self.point;
        self.point = start;
        self.prepare_gap();
        proof {
            self.lemma_wf_view();
            lemma_widen_gap_right(
                self.buffer@,
                self.gap.start as int,
                self.gap.end as int,
                count as int,
            );
        }
        let mut removed: Vec<u8> = Vec::with_capacity(count);
        let mut taken: usize = 0;
        while taken < count
            invariant
                taken <= count,
                self.gap.end + count <= self.buffer@.len() <= usize::MAX,
                removed@ == self.buffer@.subrange(self.gap.end as int, self.gap.end + taken),
            decreases count - taken,
        {
            removed.push(self.buffer[self.gap.end + taken]);
            taken += 1;
            assert(removed@ =~= self.buffer@.subrange(self.gap.end as int, self.gap.end + taken));
        }
        self.point = if point <= start {
            point
        } else if point >= end {
            point - count
        } else {
            start
        };
        self.gap.end += count;
        Ok(removed)
    }

    /// The content as a vector of its own.
    pub fn to_bytes(&self) -> (bytes: Vec<u8>)
        ensures
            bytes@ == self@.bytes,
    {
        proof {
            use_type_invariant(self);
        }
        let length: usize = self.len();
        let mut bytes: Vec<u8> = Vec::with_capacity(length);
        let mut index: usize = 0;
        while index < length
            invariant
                self.wf(),
                index <= length == self@.len(),
                bytes@ == self@.bytes.subrange(0, index as int),
            decreases length - index,
        {
            let physical: usize = self.convert_user_index_to_gap_index(index);
            proof {
                lemma_live_content_index(
                    self.buffer@,
                    self.gap.start as int,
                    self.gap.end as int,
                    index as int,
                );
            }
            bytes.push(self.buffer[physical]);
            index += 1;
            assert(bytes@ =~= self@.bytes.subrange(0, index as int));
        }
        assert(self@.bytes.subrange(0, length as int) =~= self@.bytes);
        bytes
    }

    /// The content as text. Content that is not valid UTF-8 is refused as a
    /// whole: nothing is replaced and nothing is cut off.
    pub fn render(&self) -> (outcome: Result<String, GapBufferError>)
        ensures
            match outcome {
                Ok(text) => {
                    &&& valid_utf8(self@.bytes)
                    &&& encode_utf8(text@) == self@.bytes
                    &&& self@.rendered() == Some(text@)
                },
                Err(error) => {
                    &&& !valid_utf8(self@.bytes)
                    &&& self@.rendered() is None
                    &&& error == GapBufferError::InvalidUtf8
                },
            },
    {
        match String::from_utf8(self.to_bytes()) {
            Ok(text) => {
                proof {
                    encode_utf8_decode_utf8(text@);
                }
                Ok(text)
            },
            Err(_) => Err(GapBufferError::InvalidUtf8),
        }
    }
}

} // verus!
