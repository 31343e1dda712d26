//! The WebSocket protocol.

pub mod frame;
