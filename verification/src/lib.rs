//! Verified polling engine for the Source-engine UDP status-query protocol.
//!
//! The crate models the wire codec, the per-server session state machine,
//! and the demultiplexing of inbound datagrams across sessions.  Transport,
//! logging and the metrics endpoint are left to the surrounding process.

pub mod codec;
pub mod engine;
pub mod session;
pub mod settings;
pub mod text;
