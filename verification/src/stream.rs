//! What a port does to the TCP stream of the connection it serves.

use vstd::prelude::*;

verus! {

/// How far to shut down a TCP stream.
#[derive(Clone, Copy, Debug, PartialEq, Eq, Structural)]
pub enum Shutdown {
    Read,
    Write,
    Both,
}

/// What a port does with one message for its connection.
#[derive(Debug)]
pub enum RemoteStep {
    /// Write the bytes to the connection and wait for the next message.
    Write(Vec<u8>),
    /// Shut the connection down as given and stop.
    Finish(Shutdown),
}

} // verus!
