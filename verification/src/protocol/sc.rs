//! Operation codes of frames sent from the server to the client.

use vstd::prelude::*;

verus! {

pub const CLOSE_PORT: u8 = 1;
pub const SHUTDOWN_WRITE: u8 = 3;
pub const CONNECT_OK: u8 = 4;
pub const DATA: u8 = 5;
pub const HEARTBEAT_RSP: u8 = 6;

} // verus!
