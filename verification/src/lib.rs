//! Resource-bridging layer for a remote streaming device.
//!
//! The device's native access library is built around continuous push-streams
//! and single-use, stateful remote resources. A synchronous host cannot
//! consume those directly, so this crate provides the bridging layer between
//! the two worlds:
//!
//! - [`drain::StreamHandle`] and [`drain::DrainBatch`]: turn an unbounded
//!   push-stream into bounded, timeout-limited batch reads that never lose
//!   or reorder items.
//! - [`toc_cache`]: a pluggable key-to-document store consulted while a
//!   connection is established (no-op, in-memory, and layered disk-backed
//!   variants).
//! - [`bridge`]: a duplex channel bridge with a validated bounded send side
//!   and a batched receive side.
//! - [`log`]: the ownership-transfer state machine that governs creation,
//!   configuration, activation and exactly-once teardown of remote log
//!   blocks.
//!
//! The asynchronous edges themselves (timers, sockets, files, background
//! pumps) live in the host around this crate; every decision the layer makes
//! is in here, stated in contracts and verified.

pub mod bridge;
pub mod console;
pub mod drain;
pub mod error;
pub mod log;
pub mod toc_cache;
