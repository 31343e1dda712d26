//! What the calls of the library do, in plain terms.
//!
//! Each law speaks of a call of an executable function (`call_ensures`), of its
//! arguments and of its results, and says what they are to each other byte by
//! byte and number by number.

pub mod buffers;
pub mod calls;
pub mod reading;
pub mod sockets;
pub mod wire;
pub mod writing;
