//! Supervisor and line-oriented IPC protocol for a bridge subprocess.
//!
//! The bridge speaks a JSON-per-line protocol over its standard streams:
//! events flow from the subprocess, commands flow to it. This crate holds
//! the verified core: the wire codec for both message sets, the stream
//! pump steps, the request correlator, the supervision state machine,
//! and the pure helpers around them. Process and channel plumbing lives
//! with the caller.

pub mod api;
pub mod chat;
pub mod cli;
pub mod codec;
pub mod correlator;
pub mod json;
pub mod oauth;
pub mod preview;
pub mod protocol;
pub mod pump;
pub mod supervise;
pub mod text;
pub mod wire;
