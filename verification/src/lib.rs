//! Protocol engine of a network bandwidth and latency probe.
//!
//! Two peers exchange single-byte opcodes, some followed by a payload whose
//! length the opcode alone determines. This crate holds the framing, the
//! server's per-connection dispatcher, the worker that streams filler data
//! for a requested duration, and the client's bookkeeping for its tests.
//! Sockets and threads live outside of it: the functions here take the
//! bytes that were read and say what is to be written.

pub mod client;
pub mod clock;
pub mod handler;
pub mod mac;
pub mod protocol;
pub mod rate;
pub mod sender;
