//! Verified control logic for a minimal privileged boot-and-supervision
//! layer: the PID-1-equivalent code of a single-workload enclave.
//!
//! The library holds the decisions: the ordered mount plan with its
//! per-entry severity, the console binding plan, the bounded-retry entropy
//! seeder, the per-stream line accumulator and the readiness-event
//! multiplexer that merges a supervised child's two output streams, and
//! the boot sequencer that composes them and picks a terminal action.
//! The syscalls themselves (mount, freopen, fcntl, spawn, poll) are made
//! by a thin unverified shell that drives these state machines.

pub mod boot;
pub mod child;
pub mod console;
pub mod entropy;
pub mod flags;
pub mod lines;
pub mod mounts;
pub mod mux;
pub mod reader;
