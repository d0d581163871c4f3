//! A gap buffer: a sequence of bytes that is cheap to edit near one position.
//!
//! [`GapBuffer`] is the buffer. [`text::Text`] is what a buffer is to its
//! user, and the contracts of the buffer's operations are stated over it.
//! [`layout`] relates the user's view to the storage, and [`growth`] says how
//! large the storage is made.

pub mod buffer;
pub mod decode;
pub mod error;
pub mod growth;
pub mod layout;
pub mod text;

pub use crate::buffer::GapBuffer;
pub use crate::error::GapBufferError;
pub use crate::growth::{DEFAULT_BUFFER_CAPACITY, INITIAL_GAP_SIZE};
