//! The reasons for which a buffer refuses an operation.

use vstd::prelude::*;

verus! {

/// Why an operation was refused. A refused operation leaves the buffer
/// exactly as it was.
#[derive(Debug, Clone, Copy, PartialEq, Eq, Structural)]
pub enum GapBufferError {
    /// The point was to be set to `index`, behind the end of a content of
    /// `length` bytes.
    OutOfBounds { index: usize, length: usize },
    /// The range from `start` to `end` is reversed or reaches behind the end
    /// of a content of `length` bytes.
    InvalidRange { start: usize, end: usize, length: usize },
    /// The byte before the point was to be removed while the point stood at
    /// index 0.
    NothingBeforePoint,
    /// The content was to be rendered as text but is not valid UTF-8.
    InvalidUtf8,
}

} // verus!
