//! Core of a network load-generation engine: per-thread statistics, the
//! per-connection echo protocol state machine, the zero-copy buffer arena,
//! and the completion-batch draining logic of the worker loop.
//!
//! The kernel completion ring itself, sockets and memory mapping are driven
//! by an unverified front end; this library makes every decision: which
//! operation a connection submits next, how payloads are generated and
//! checked, and how completions are folded into statistics.

pub mod ring;
pub mod settings;
pub mod stats;
pub mod tasks;
pub mod worker;
