//! Constants of the tunnel protocol.

pub mod cs;
pub mod sc;

use vstd::prelude::*;

verus! {

/// Interval between heartbeats sent by the client, in milliseconds.
pub const HEARTBEAT_INTERVAL_MS: u32 = 5000;

/// A tunnel that has not heard from its peer for longer than this many
/// milliseconds is considered dead.
pub const ALIVE_TIMEOUT_TIME_MS: i64 = 60000;

} // verus!
