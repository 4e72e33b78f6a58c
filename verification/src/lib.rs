//! A SOCKS5 proxy that carries many client connections ("ports") over a
//! small number of multiplexed TCP tunnels between a local client and a
//! remote server.
//!
//! This crate holds the proxy's logic: the tunnel wire format, the SOCKS5
//! handshake, and the decision procedures of the client and server tunnel
//! cores and of their ports. Sockets, threads and channels are driven by the
//! surrounding program, which feeds events in and performs the actions that
//! come out.

pub mod protocol;
pub mod wire;
pub mod clock;
pub mod socks5;
pub mod text;
pub mod stream;
pub mod client;
pub mod server;
pub mod compat;
