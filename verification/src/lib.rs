//! A lightweight connectivity-monitoring engine.
//!
//! The engine keeps a registry of network targets, periodically probes each
//! one (by a TCP connect attempt or by the system ping utility) and hands
//! every completed probe result to a sink. This crate holds the verified
//! core: the target registry, the construction and classification of probe
//! results, the parser for ping's textual latency output, and the scheduler's
//! state machine. The I/O itself (sockets, subprocesses, timers) lives
//! outside, feeding plain values in and taking plain values out.

pub mod ping_parse;
pub mod probe;
pub mod registry;
pub mod scheduler;
pub mod types;
