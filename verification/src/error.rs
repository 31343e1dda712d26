//! What can go wrong when frames are read or written.

use vstd::prelude::*;

verus! {

/// Possible errors of the frame codec.
#[derive(Debug)]
pub enum Error {
    /// The stream failed.
    Io(std::io::Error),
    /// The stream took no more bytes, which is the same as "Connection reset
    /// by peer".
    ConnectionReset,
    /// A frame is larger than it may be.
    Capacity(CapacityError),
    /// What came in violates the protocol.
    Protocol(ProtocolError),
}

/// Indicates that a frame exceeds a size limit.
#[derive(Debug, Clone, Copy, PartialEq, Eq)]
pub enum CapacityError {
    /// The payload of a frame is longer than the maximum.
    MessageTooLong {
        /// The size of the payload.
        size: usize,
        /// The maximum allowed size.
        max_size: usize,
    },
}

/// Indicates a violation of the protocol.
#[derive(Debug, Clone, Copy, PartialEq, Eq)]
pub enum ProtocolError {
    /// A frame has an opcode that the protocol does not define.
    InvalidOpcode(u8),
}

} // verus!
