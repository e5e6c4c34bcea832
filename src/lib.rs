//! Replays a captured profiler trace over the live profiling wire protocol.
//!
//! The library holds the byte-exact codec of the capture file and of the wire
//! protocol, the string interner used while loading the capture, and the
//! per-connection replay state machine. Socket and file I/O live outside.

pub mod codec;
pub mod capture;
pub mod wire;
pub mod strings;
pub mod loader;
pub mod server;
