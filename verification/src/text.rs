//! What a gap buffer is to its user: a sequence of bytes and an edit
//! position, with no gap in sight.
//!
//! Every operation of the buffer is described here as a function from one
//! [`Text`] to the next. The laws at the end of the file relate these
//! functions to each other.

use vstd::prelude::*;
use vstd::utf8::*;

verus! {

/// The user-visible state of a buffer.
pub struct Text {
    /// The content, in order.
    pub bytes: Seq<u8>,
    /// The edit position, an index into `bytes` or one past its last byte.
    pub point: int,
}

impl Text {
    /// The point lies inside the content or directly behind it.
    pub open spec fn valid(self) -> bool {
        0 <= self.point <= self.bytes.len()
    }

    /// Number of bytes of content.
    pub open spec fn len(self) -> nat {
        self.bytes.len()
    }

    /// No content, point at index 0.
    pub open spec fn empty() -> Text {
        Text { bytes: Seq::empty(), point: 0 }
    }

    /// The given content with the point behind its last byte.
    pub open spec fn of_bytes(bytes: Seq<u8>) -> Text {
        Text { bytes, point: bytes.len() as int }
    }

    /// The UTF-8 encoding of `chars` with the point behind its last byte.
    pub open spec fn of_chars(chars: Seq<char>) -> Text {
        Text::of_bytes(encode_utf8(chars))
    }

    /// The same content with the point at `index`.
    pub open spec fn with_point(self, index: int) -> Text {
        Text { bytes: self.bytes, point: index }
    }

    /// `byte` inserted at the point. The point keeps its index, so it now
    /// stands before the inserted byte.
    pub open spec fn insert(self, byte: u8) -> Text {
        Text { bytes: self.bytes.insert(self.point, byte), point: self.point }
    }

    /// `run` inserted at the point, in order. The point keeps its index, so it
    /// now stands before the first inserted byte.
    pub open spec fn insert_bytes(self, run: Seq<u8>) -> Text {
        Text {
            bytes: self.bytes.subrange(0, self.point) + run + self.bytes.subrange(
                self.point,
                self.bytes.len() as int,
            ),
            point: self.point,
        }
    }

    /// The bytes of `run` inserted one at a time, the point moved behind each
    /// byte after it is inserted.
    pub open spec fn insert_each(self, run: Seq<u8>) -> Text
        decreases run.len(),
    {
        if run.len() == 0 {
            self
        } else {
            self.insert(run[0]).with_point(self.point + 1).insert_each(run.drop_first())
        }
    }

    /// The byte before the point removed, and the point moved one to the left.
    pub open spec fn remove(self) -> Text {
        Text { bytes: self.bytes.remove(self.point - 1), point: self.point - 1 }
    }

    /// The bytes at the indices `start <= i < end`.
    pub open spec fn range(self, start: int, end: int) -> Seq<u8> {
        self.bytes.subrange(start, end)
    }

    /// The bytes at the indices `start <= i < end` removed. A point before the
    /// range stays, a point inside it moves to `start`, and a point behind it
    /// moves left with the bytes it stood between.
    pub open spec fn remove_range(self, start: int, end: int) -> Text {
        Text {
            bytes: self.bytes.subrange(0, start) + self.bytes.subrange(
                end,
                self.bytes.len() as int,
            ),
            point: if self.point <= start {
                self.point
            } else if self.point >= end {
                self.point - (end - start)
            } else {
                start
            },
        }
    }

    /// The content read as UTF-8, or `None` where it is not valid UTF-8.
    pub open spec fn rendered(self) -> Option<Seq<char>> {
        if valid_utf8(self.bytes) {
            Some(decode_utf8(self.bytes))
        } else {
            None
        }
    }
}

/// Round trip: a buffer made from a string renders to that string.
pub proof fn lemma_round_trip(chars: Seq<char>)
    ensures
        Text::of_chars(chars).valid(),
        Text::of_chars(chars).rendered() == Some(chars),
{
    encode_utf8_valid_utf8(chars);
    encode_utf8_decode_utf8(chars);
}

/// Length consistency: a text that renders to a string has as many bytes as
/// the string's UTF-8 encoding, and indeed the same bytes.
pub proof fn lemma_rendered_len(text: Text, chars: Seq<char>)
    requires
        text.rendered() == Some(chars),
    ensures
        encode_utf8(chars) == text.bytes,
        encode_utf8(chars).len() == text.len(),
{
    decode_utf8_encode_utf8(text.bytes);
}

/// Every edit keeps the point inside the content, on the inputs on which the
/// edit is defined.
pub proof fn lemma_edits_keep_valid(
    text: Text,
    byte: u8,
    run: Seq<u8>,
    index: int,
    start: int,
    end: int,
)
    requires
        text.valid(),
    ensures
        text.insert(byte).valid(),
        text.insert(byte).len() == text.len() + 1,
        text.insert_bytes(run).valid(),
        text.insert_bytes(run).len() == text.len() + run.len(),
        0 <= index <= text.len() ==> text.with_point(index).valid(),
        text.point > 0 ==> text.remove().valid() && text.remove().len() == text.len() - 1,
        0 <= start <= end <= text.len() ==> text.remove_range(start, end).valid()
            && text.remove_range(start, end).len() == text.len() - (end - start),
{
}

/// Inserting one byte is inserting a run of length one.
pub proof fn lemma_insert_is_insert_bytes(text: Text, byte: u8)
    requires
        text.valid(),
    ensures
        text.insert(byte) == text.insert_bytes(seq![byte]),
{
    assert(text.insert(byte).bytes =~= text.insert_bytes(seq![byte]).bytes);
}

/// Insert and remove are inverse: inserting a byte at the point, moving the
/// point behind it and removing the byte before the point gives back the
/// content and the point.
pub proof fn lemma_insert_then_remove(text: Text, byte: u8)
    requires
        text.valid(),
    ensures
        text.insert(byte).with_point(text.point + 1).remove() == text,
{
    assert(text.insert(byte).with_point(text.point + 1).remove().bytes =~= text.bytes);
}

/// Inserting a run at the point and then removing the range that it occupies
/// gives back the run, the content and the point.
pub proof fn lemma_insert_bytes_then_remove_range(text: Text, run: Seq<u8>)
    requires
        text.valid(),
    ensures
        text.insert_bytes(run).range(text.point, text.point + run.len()) == run,
        text.insert_bytes(run).remove_range(text.point, text.point + run.len()) == text,
{
    let end: int = text.point + run.len();
    assert(text.insert_bytes(run).range(text.point, end) =~= run);
    assert(text.insert_bytes(run).remove_range(text.point, end).bytes =~= text.bytes);
}

/// Batch equivalence: inserting the bytes of a run one at a time, moving the
/// point behind each, gives the content that inserting the run at once gives,
/// with the point behind the run.
pub proof fn lemma_insert_each_is_insert_bytes(text: Text, run: Seq<u8>)
    requires
        text.valid(),
    ensures
        text.insert_each(run) == text.insert_bytes(run).with_point(text.point + run.len()),
    decreases run.len(),
{
    if run.len() == 0 {
        assert(text.insert_bytes(run).bytes =~= text.bytes);
    } else {
        let next = text.insert(run[0]).with_point(text.point + 1);
        let rest = run.drop_first();
        lemma_insert_each_is_insert_bytes(next, rest);
        assert(next.insert_bytes(rest).bytes =~= text.insert_bytes(run).bytes);
    }
}

} // verus!
