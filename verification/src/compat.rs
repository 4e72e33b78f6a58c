//! How the two ends of a tunnel understand each other: every frame that one
//! core writes is read by the other end as exactly that frame, carrying the
//! matching message, whatever bytes follow it; and a reader that has only
//! part of a frame waits for the rest.

use vstd::prelude::*;
use crate::client;
use crate::server;
use crate::protocol::{cs, sc};
use crate::wire::{
    lemma_id_frame_fields, lemma_payload_frame_fields, lemma_domain_frame_fields, id_frame,
    payload_frame, domain_frame,
};

verus! {

/// The payloads of `m` fit the length fields of its frame.
pub open spec fn client_payload_fits(m: client::MessageView) -> bool {
    match m {
        client::MessageView::CSConnect(_, b) => b.len() <= u32::MAX,
        client::MessageView::CSData(_, b) => b.len() <= u32::MAX,
        client::MessageView::CSConnectDN(_, b, _) => b.len() + 2 <= u32::MAX,
        _ => true,
    }
}

/// The payloads of `m` fit the length fields of its frame.
pub open spec fn server_payload_fits(m: server::MessageView) -> bool {
    match m {
        server::MessageView::SCConnectOk(_, b) => b.len() <= u32::MAX,
        server::MessageView::SCData(_, b) => b.len() <= u32::MAX,
        _ => true,
    }
}

/// The message the server core receives for the frame that the client core
/// writes on `m`. A connect request reaches the server as a payload frame
/// with the connect operation code.
pub open spec fn as_received_by_server(m: client::MessageView) -> server::MessageView {
    match m {
        client::MessageView::CSOpenPort(id) => server::MessageView::CSOpenPort(id),
        client::MessageView::CSConnect(id, b) => server::MessageView::CSData(cs::CONNECT, id, b),
        client::MessageView::CSConnectDN(id, b, p) => server::MessageView::CSConnectDN(id, b, p),
        client::MessageView::CSShutdownWrite(id) => server::MessageView::CSShutdownWrite(id),
        client::MessageView::CSData(id, b) => server::MessageView::CSData(cs::DATA, id, b),
        client::MessageView::CSClosePort(id) => server::MessageView::CSClosePort(id),
        _ => server::MessageView::CSHeartbeat,
    }
}

/// The message the client core receives for the frame that the server core
/// writes on `m`.
pub open spec fn as_received_by_client(m: server::MessageView) -> client::MessageView {
    match m {
        server::MessageView::SCClosePort(id) => client::MessageView::SCClosePort(id),
        server::MessageView::SCShutdownWrite(id) => client::MessageView::SCShutdownWrite(id),
        server::MessageView::SCConnectOk(id, b) => client::MessageView::SCConnectOk(id, b),
        server::MessageView::SCData(id, b) => client::MessageView::SCData(id, b),
        _ => client::MessageView::SCHeartbeat,
    }
}

/// The server reads an id frame followed by anything as that frame.
proof fn lemma_server_reads_id_frame(op: u8, id: u32, t: Seq<u8>)
    requires
        op == cs::OPEN_PORT || op == cs::CLOSE_PORT || op == cs::SHUTDOWN_WRITE,
    ensures
        !server::domain_length_underflows(id_frame(op, id) + t),
        server::cs_decode(id_frame(op, id) + t) == server::ReceivedView::Frame(
            5,
            if op == cs::OPEN_PORT {
                server::MessageView::CSOpenPort(id)
            } else if op == cs::CLOSE_PORT {
                server::MessageView::CSClosePort(id)
            } else {
                server::MessageView::CSShutdownWrite(id)
            },
        ),
{
    lemma_id_frame_fields(op, id, t);
}

/// The server reads a payload frame followed by anything as that frame.
proof fn lemma_server_reads_payload_frame(op: u8, id: u32, b: Seq<u8>, t: Seq<u8>)
    requires
        op == cs::CONNECT || op == cs::DATA,
        b.len() <= u32::MAX,
    ensures
        !server::domain_length_underflows(payload_frame(op, id, b) + t),
        server::cs_decode(payload_frame(op, id, b) + t) == server::ReceivedView::Frame(
            9 + b.len() as int,
            server::MessageView::CSData(op, id, b),
        ),
{
    lemma_payload_frame_fields(op, id, b, t);
}

/// The server reads a domain frame followed by anything as that frame.
proof fn lemma_server_reads_domain_frame(id: u32, b: Seq<u8>, port: u16, t: Seq<u8>)
    requires
        b.len() + 2 <= u32::MAX,
    ensures
        !server::domain_length_underflows(domain_frame(id, b, port) + t),
        server::cs_decode(domain_frame(id, b, port) + t) == server::ReceivedView::Frame(
            11 + b.len() as int,
            server::MessageView::CSConnectDN(id, b, port),
        ),
{
    lemma_domain_frame_fields(id, b, port, t);
}

/// Every frame that the client core writes in reaction to a message is
/// read by the server, whatever follows it, as exactly that frame carrying
/// the matching message, and never trips the server's length check.
pub proof fn lemma_client_frames_read_by_server(
    s: client::ClientCoreView,
    m: client::MessageView,
    now: crate::clock::Timestamp,
    i: int,
    t: Seq<u8>,
)
    requires
        client_payload_fits(m),
        0 <= i < client::client_step(s, m, now).1.len(),
        client::client_step(s, m, now).1[i] is Write,
    ensures
        ({
            let f = client::client_step(s, m, now).1[i]->Write_0;
            &&& !server::domain_length_underflows(f + t)
            &&& server::cs_decode(f + t) == server::ReceivedView::Frame(
                f.len() as int,
                as_received_by_server(m),
            )
        }),
{
    let f = client::client_step(s, m, now).1[i]->Write_0;
    match m {
        client::MessageView::CSOpenPort(id) => {
            assert(f == id_frame(cs::OPEN_PORT, id));
            lemma_server_reads_id_frame(cs::OPEN_PORT, id, t);
        },
        client::MessageView::CSConnect(id, b) => {
            assert(f == payload_frame(cs::CONNECT, id, b));
            lemma_server_reads_payload_frame(cs::CONNECT, id, b, t);
        },
        client::MessageView::CSConnectDN(id, b, p) => {
            assert(f == domain_frame(id, b, p));
            lemma_server_reads_domain_frame(id, b, p, t);
            lemma_domain_frame_fields(id, b, p, Seq::empty());
        },
        client::MessageView::CSShutdownWrite(id) => {
            assert(f == id_frame(cs::SHUTDOWN_WRITE, id));
            lemma_server_reads_id_frame(cs::SHUTDOWN_WRITE, id, t);
        },
        client::MessageView::CSData(id, b) => {
            assert(f == payload_frame(cs::DATA, id, b));
            lemma_server_reads_payload_frame(cs::DATA, id, b, t);
            lemma_payload_frame_fields(cs::DATA, id, b, Seq::empty());
        },
        client::MessageView::CSClosePort(id) => {
            assert(s.ports.contains_key(id));
            assert(i == 1);
            assert(f == id_frame(cs::CLOSE_PORT, id));
            lemma_server_reads_id_frame(cs::CLOSE_PORT, id, t);
        },
        client::MessageView::PortDrop(id) => {
            assert(false);
        },
        _ => {
            assert(false);
        },
    }
}

/// The heartbeat that the client core writes on a tick is read by the
/// server, whatever follows it, as a one-byte heartbeat frame.
pub proof fn lemma_heartbeat_read_by_server(
    s: client::ClientCoreView,
    now: crate::clock::Timestamp,
    t: Seq<u8>,
)
    requires
        client::client_tick(s, now) != seq![client::ActionView::Stop],
    ensures
        client::client_tick(s, now) == seq![client::ActionView::Write(seq![cs::HEARTBEAT])],
        server::cs_decode(seq![cs::HEARTBEAT] + t) == server::ReceivedView::Frame(
            1,
            server::MessageView::CSHeartbeat,
        ),
        !server::domain_length_underflows(seq![cs::HEARTBEAT] + t),
{
    assert((seq![cs::HEARTBEAT] + t)[0] == cs::HEARTBEAT);
}

/// Every frame that the server core writes in reaction to a message is
/// read by the client, whatever follows it, as exactly that frame carrying
/// the matching message.
pub proof fn lemma_server_frames_read_by_client(
    s: server::ServerCoreView,
    m: server::MessageView,
    now: crate::clock::Timestamp,
    i: int,
    t: Seq<u8>,
)
    requires
        server_payload_fits(m),
        0 <= i < server::server_step(s, m, now).1.len(),
        server::server_step(s, m, now).1[i] is Write,
    ensures
        ({
            let f = server::server_step(s, m, now).1[i]->Write_0;
            client::sc_decode(f + t) == client::ReceivedView::Frame(
                f.len() as int,
                as_received_by_client(m),
            )
        }),
{
    let f = server::server_step(s, m, now).1[i]->Write_0;
    match m {
        server::MessageView::CSHeartbeat => {
            assert(f == seq![sc::HEARTBEAT_RSP]);
            assert((f + t)[0] == sc::HEARTBEAT_RSP);
        },
        server::MessageView::SCClosePort(id) => {
            assert(s.ports.contains_key(id));
            assert(i == 1);
            assert(f == id_frame(sc::CLOSE_PORT, id));
            lemma_id_frame_fields(sc::CLOSE_PORT, id, t);
        },
        server::MessageView::SCShutdownWrite(id) => {
            assert(f == id_frame(sc::SHUTDOWN_WRITE, id));
            lemma_id_frame_fields(sc::SHUTDOWN_WRITE, id, t);
        },
        server::MessageView::SCConnectOk(id, b) => {
            assert(f == payload_frame(sc::CONNECT_OK, id, b));
            lemma_payload_frame_fields(sc::CONNECT_OK, id, b, t);
        },
        server::MessageView::SCData(id, b) => {
            assert(f == payload_frame(sc::DATA, id, b));
            lemma_payload_frame_fields(sc::DATA, id, b, t);
        },
        server::MessageView::PortDrop(id) => {
            assert(false);
        },
        _ => {
            assert(false);
        },
    }
}

/// Reading a `u32` inside a prefix reads the same bytes as in the whole.
proof fn lemma_be32_at_take(f: Seq<u8>, k: int, at: int)
    requires
        0 <= at,
        at + 4 <= k <= f.len(),
    ensures
        crate::wire::be32_at(f.take(k), at) == crate::wire::be32_at(f, at),
{
    assert(f.take(k)[at] == f[at]);
    assert(f.take(k)[at + 1] == f[at + 1]);
    assert(f.take(k)[at + 2] == f[at + 2]);
    assert(f.take(k)[at + 3] == f[at + 3]);
}

/// A server that has received only part of a frame written by the client
/// core waits for more bytes, and its length check does not trip on it.
pub proof fn lemma_partial_client_frame_waits(
    s: client::ClientCoreView,
    m: client::MessageView,
    now: crate::clock::Timestamp,
    i: int,
    k: int,
)
    requires
        client_payload_fits(m),
        0 <= i < client::client_step(s, m, now).1.len(),
        client::client_step(s, m, now).1[i] is Write,
        0 <= k < client::client_step(s, m, now).1[i]->Write_0.len(),
    ensures
        ({
            let p = client::client_step(s, m, now).1[i]->Write_0.take(k);
            &&& !server::domain_length_underflows(p)
            &&& server::cs_decode(p) == server::ReceivedView::NeedMore
        }),
{
    let f = client::client_step(s, m, now).1[i]->Write_0;
    let p = f.take(k);
    lemma_client_frames_read_by_server(s, m, now, i, Seq::empty());
    assert(f + Seq::<u8>::empty() =~= f);
    if k >= 1 {
        assert(p[0] == f[0]);
    }
    if k >= 9 {
        lemma_be32_at_take(f, k, 5);
    }
    match m {
        client::MessageView::CSConnect(id, b) => {
            lemma_payload_frame_fields(cs::CONNECT, id, b, Seq::empty());
        },
        client::MessageView::CSData(id, b) => {
            lemma_payload_frame_fields(cs::DATA, id, b, Seq::empty());
        },
        client::MessageView::CSConnectDN(id, b, port) => {
            lemma_domain_frame_fields(id, b, port, Seq::empty());
        },
        client::MessageView::CSOpenPort(id) => {
            lemma_id_frame_fields(cs::OPEN_PORT, id, Seq::empty());
        },
        client::MessageView::CSShutdownWrite(id) => {
            lemma_id_frame_fields(cs::SHUTDOWN_WRITE, id, Seq::empty());
        },
        client::MessageView::CSClosePort(id) => {
            lemma_id_frame_fields(cs::CLOSE_PORT, id, Seq::empty());
        },
        _ => {},
    }
}

/// A client that has received only part of a frame written by the server
/// core waits for more bytes.
pub proof fn lemma_partial_server_frame_waits(
    s: server::ServerCoreView,
    m: server::MessageView,
    now: crate::clock::Timestamp,
    i: int,
    k: int,
)
    requires
        server_payload_fits(m),
        0 <= i < server::server_step(s, m, now).1.len(),
        server::server_step(s, m, now).1[i] is Write,
        0 <= k < server::server_step(s, m, now).1[i]->Write_0.len(),
    ensures
        client::sc_decode(server::server_step(s, m, now).1[i]->Write_0.take(k))
            == client::ReceivedView::NeedMore,
{
    let f = server::server_step(s, m, now).1[i]->Write_0;
    let p = f.take(k);
    lemma_server_frames_read_by_client(s, m, now, i, Seq::empty());
    assert(f + Seq::<u8>::empty() =~= f);
    if k >= 1 {
        assert(p[0] == f[0]);
    }
    if k >= 9 {
        lemma_be32_at_take(f, k, 5);
    }
    match m {
        server::MessageView::SCConnectOk(id, b) => {
            lemma_payload_frame_fields(sc::CONNECT_OK, id, b, Seq::empty());
        },
        server::MessageView::SCData(id, b) => {
            lemma_payload_frame_fields(sc::DATA, id, b, Seq::empty());
        },
        server::MessageView::SCClosePort(id) => {
            lemma_id_frame_fields(sc::CLOSE_PORT, id, Seq::empty());
        },
        server::MessageView::SCShutdownWrite(id) => {
            lemma_id_frame_fields(sc::SHUTDOWN_WRITE, id, Seq::empty());
        },
        _ => {},
    }
}

/// A heartbeat keeps both ends alive: the server, hearing the client's
/// heartbeat at `t1`, refreshes its own liveness and answers with a frame
/// that the client reads as a heartbeat answer, which refreshes the
/// client's liveness at `t2`.
pub proof fn lemma_heartbeat_exchange(
    srv: server::ServerCoreView,
    cli: client::ClientCoreView,
    t1: crate::clock::Timestamp,
    t2: crate::clock::Timestamp,
    rest: Seq<u8>,
)
    ensures
        server::cs_decode(seq![cs::HEARTBEAT] + rest) == server::ReceivedView::Frame(
            1,
            server::MessageView::CSHeartbeat,
        ),
        server::server_step(srv, server::MessageView::CSHeartbeat, t1).0.alive == t1,
        server::server_step(srv, server::MessageView::CSHeartbeat, t1).1 == seq![
            server::ActionView::Write(seq![sc::HEARTBEAT_RSP]),
        ],
        client::sc_decode(seq![sc::HEARTBEAT_RSP] + rest) == client::ReceivedView::Frame(
            1,
            client::MessageView::SCHeartbeat,
        ),
        client::client_step(cli, client::MessageView::SCHeartbeat, t2).0.alive == t2,
{
    assert((seq![cs::HEARTBEAT] + rest)[0] == cs::HEARTBEAT);
    assert((seq![sc::HEARTBEAT_RSP] + rest)[0] == sc::HEARTBEAT_RSP);
}

/// Bytes and requests travel from a browser port to its target port
/// intact: the frame that the client core writes for bytes `b` on port
/// `id` makes a server on which that port is open hand the port exactly
/// `b` as data, and the frame written for a connect request by name hands
/// it exactly that name and port.
pub proof fn lemma_browser_bytes_reach_target_port(
    cli: client::ClientCoreView,
    srv: server::ServerCoreView,
    id: u32,
    b: Seq<u8>,
    name: Seq<u8>,
    port: u16,
    t1: crate::clock::Timestamp,
    t2: crate::clock::Timestamp,
    rest: Seq<u8>,
)
    requires
        srv.ports.contains_key(id),
        b.len() <= u32::MAX,
        name.len() + 2 <= u32::MAX,
    ensures
        ({
            let f = client::client_step(cli, client::MessageView::CSData(id, b), t1).1[0]->Write_0;
            &&& server::cs_decode(f + rest) == server::ReceivedView::Frame(
                f.len() as int,
                server::MessageView::CSData(cs::DATA, id, b),
            )
            &&& server::server_step(srv, server::MessageView::CSData(cs::DATA, id, b), t2).1
                == seq![server::ActionView::Notify(id, server::PortMessageView::Data(cs::DATA, b))]
        }),
        ({
            let m = client::MessageView::CSConnectDN(id, name, port);
            let f = client::client_step(cli, m, t1).1[0]->Write_0;
            &&& server::cs_decode(f + rest) == server::ReceivedView::Frame(
                f.len() as int,
                server::MessageView::CSConnectDN(id, name, port),
            )
            &&& server::server_step(srv, server::MessageView::CSConnectDN(id, name, port), t2).1
                == seq![
                server::ActionView::Notify(id, server::PortMessageView::ConnectDN(name, port)),
            ]
        }),
{
    lemma_client_frames_read_by_server(cli, client::MessageView::CSData(id, b), t1, 0, rest);
    lemma_client_frames_read_by_server(
        cli,
        client::MessageView::CSConnectDN(id, name, port),
        t1,
        0,
        rest,
    );
    server::lemma_server_routes_requests_unchanged(srv, id, cs::DATA, b, name, port, t2);
}

/// The server's connect report and relayed bytes reach the browser's port
/// intact: the frame that the server core writes for them makes a client
/// on which that port is open hand the port exactly the same address text,
/// or exactly the same bytes.
pub proof fn lemma_target_reports_reach_browser_port(
    srv: server::ServerCoreView,
    cli: client::ClientCoreView,
    id: u32,
    b: Seq<u8>,
    t1: crate::clock::Timestamp,
    t2: crate::clock::Timestamp,
    rest: Seq<u8>,
)
    requires
        cli.ports.contains_key(id),
        b.len() <= u32::MAX,
    ensures
        ({
            let f = server::server_step(srv, server::MessageView::SCConnectOk(id, b), t1).1[0]->Write_0;
            &&& client::sc_decode(f + rest) == client::ReceivedView::Frame(
                f.len() as int,
                client::MessageView::SCConnectOk(id, b),
            )
            &&& client::client_step(cli, client::MessageView::SCConnectOk(id, b), t2).1 == seq![
                client::ActionView::Notify(id, client::PortMessageView::ConnectOk(b)),
            ]
        }),
        ({
            let f = server::server_step(srv, server::MessageView::SCData(id, b), t1).1[0]->Write_0;
            &&& client::sc_decode(f + rest) == client::ReceivedView::Frame(
                f.len() as int,
                client::MessageView::SCData(id, b),
            )
            &&& client::client_step(cli, client::MessageView::SCData(id, b), t2).1 == seq![
                client::ActionView::Notify(id, client::PortMessageView::Data(b)),
            ]
        }),
{
    lemma_server_frames_read_by_client(srv, server::MessageView::SCConnectOk(id, b), t1, 0, rest);
    lemma_server_frames_read_by_client(srv, server::MessageView::SCData(id, b), t1, 0, rest);
    client::lemma_client_routes_server_frames_unchanged(cli, id, b, t2);
}

/// Opening and closing a port at the client reaches the server: the frame
/// that the client core writes when a port opens makes the server record
/// the port and start its task, and the frame it writes when an open port
/// closes makes the server tell that port to close and forget it.
pub proof fn lemma_port_open_and_close_reach_server(
    cli: client::ClientCoreView,
    srv: server::ServerCoreView,
    id: u32,
    t1: crate::clock::Timestamp,
    t2: crate::clock::Timestamp,
    rest: Seq<u8>,
)
    ensures
        ({
            let f = client::client_step(cli, client::MessageView::CSOpenPort(id), t1).1[1]->Write_0;
            &&& server::cs_decode(f + rest) == server::ReceivedView::Frame(
                5,
                server::MessageView::CSOpenPort(id),
            )
            &&& server::server_step(srv, server::MessageView::CSOpenPort(id), t2).0.ports.contains_key(id)
            &&& server::server_step(srv, server::MessageView::CSOpenPort(id), t2).1 == seq![
                server::ActionView::Attach(id),
            ]
        }),
        cli.ports.contains_key(id) ==> ({
            let f = client::client_step(cli, client::MessageView::CSClosePort(id), t1).1[1]->Write_0;
            &&& server::cs_decode(f + rest) == server::ReceivedView::Frame(
                5,
                server::MessageView::CSClosePort(id),
            )
            &&& !server::server_step(srv, server::MessageView::CSClosePort(id), t2).0.ports.contains_key(id)
            &&& srv.ports.contains_key(id) ==> server::server_step(
                srv,
                server::MessageView::CSClosePort(id),
                t2,
            ).1[0] == server::ActionView::Notify(id, server::PortMessageView::ClosePort)
        }),
{
    lemma_client_frames_read_by_server(cli, client::MessageView::CSOpenPort(id), t1, 1, rest);
    lemma_id_frame_fields(cs::OPEN_PORT, id, Seq::empty());
    if cli.ports.contains_key(id) {
        lemma_client_frames_read_by_server(cli, client::MessageView::CSClosePort(id), t1, 1, rest);
        lemma_id_frame_fields(cs::CLOSE_PORT, id, Seq::empty());
    }
}

} // verus!
