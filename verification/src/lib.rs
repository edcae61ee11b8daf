//! A user-space process supervisor: a long-lived daemon launches, monitors,
//! restarts and reports on user-declared child programs, controlled by a
//! short-lived client over a local IPC channel.
//!
//! This crate is the verified core: the process roster and its lifecycle
//! rules, the restart policy, the monitor pass, the wire codec for the IPC
//! protocol, and the persistent-state format. The surrounding I/O (sockets,
//! child processes, files, the terminal) lives outside the library.

pub mod cli;
pub mod codec;
pub mod config;
pub mod decode;
pub mod dispatch;
pub mod encode;
pub mod error;
pub mod format;
pub mod ipc;
pub mod manager;
pub mod process;
pub mod text;
pub mod wire;

use vstd::prelude::*;

verus! {

/// The number of milliseconds a restarted entry is held back before the
/// restart policy may fire again.
pub const RESTART_COOLDOWN_MS: u64 = 5000;

} // verus!
