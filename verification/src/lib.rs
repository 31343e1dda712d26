//! Reading and writing of WebSocket frames, without I/O.

pub mod bindings;
pub mod buffer;
pub mod error;
pub mod laws;
pub mod protocol;

use vstd::prelude::*;

verus! {

/// The number of bytes that are read from a stream at once.
pub const READ_BUFFER_CHUNK_SIZE: usize = 4096;

/// The buffer that the codec reads through.
pub type ReadBuffer = buffer::ReadBuffer<READ_BUFFER_CHUNK_SIZE>;

} // verus!
