# simple_proxy

A SOCKS5 proxy split across two hosts. The local *client* accepts browser
connections, runs the SOCKS5 handshake, and carries every connection as a
*port* of one of a few long-lived *tunnels* to the remote *server*, which
connects each port to the host the browser asked for.

## Layout

- `src/` — the library, verified with Verus:
  - `wire.rs`: big-endian integers and the tunnel frames;
  - `socks5.rs`: the SOCKS5 handshake on bytes, replies, address text;
  - `client.rs`, `server.rs`: the ports' decisions and the tunnel cores as
    state machines (message or timer tick in, actions out), with the frame
    readers for each direction;
  - `compat.rs`: what one end writes, the other end reads back;
  - `clock.rs`, `text.rs`: the wall clock and UTF-8 checks.
- `app/` — sockets, threads, channels, logging and the command lines of the
  two programs, driving the library.
- `tests/` — tests of the library on concrete inputs.
