//! Verified core of a terminal-session connection manager.
//!
//! A session is backed either by a locally spawned pseudo-terminal process or
//! by an interactive shell channel over a secure remote transport.  This crate
//! holds the part of that system that is worth proving: the per-session
//! lifecycle state machine, the input queue and its FIFO ordering contract,
//! the pump bookkeeping that drives a shared transport handle, the shutdown
//! protocol, and the small pure computations around them.  The operating
//! system work itself (pseudo-terminals, sockets, the secure handshake) is
//! performed by an unverified shell around this library.

pub mod errors;
pub mod events;
pub mod keys;
pub mod local;
pub mod pump;
pub mod queue;
pub mod registry;
pub mod sftp;
pub mod ssh;

use vstd::prelude::*;

verus! {

/// Default terminal width requested when a transport is opened.
pub const DEFAULT_COLS: u16 = 80;

/// Default terminal height requested when a transport is opened.
pub const DEFAULT_ROWS: u16 = 24;

} // verus!
