//! Operation codes of frames sent from the client to the server.

use vstd::prelude::*;

verus! {

pub const OPEN_PORT: u8 = 1;
pub const CLOSE_PORT: u8 = 2;
pub const SHUTDOWN_WRITE: u8 = 4;
pub const CONNECT: u8 = 5;
pub const CONNECT_DOMAIN_NAME: u8 = 6;
pub const DATA: u8 = 7;
pub const HEARTBEAT: u8 = 8;

} // verus!
