//! Core of a minimal point-to-point file-transfer utility.
//!
//! A server accepts one command per connection and either receives a file
//! (upload) or sends one (download) over a small binary framing protocol.
//! This crate holds the verified core: the protocol codec, the streaming
//! transfer session that tracks the remaining byte count, and the model of
//! the background file-writer that drains an ordered stream of chunks.
//! Sockets, files and threads live with the callers.

pub mod codec;
pub mod session;
pub mod shared;
