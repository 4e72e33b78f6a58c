//! The server end of a tunnel.
//!
//! The server accepts tunnel connections from clients. For each port that a
//! client opens, a port task connects to the target the client names and
//! relays bytes both ways; its read half receives `PortMessage`s from the
//! tunnel core and its write half sends `Message`s to it.
//!
//! `ServerCore` holds the core's decisions: for each message, and for each
//! tick of the liveness timer, it updates its table of open ports and
//! returns the `Action`s to perform, in order.

use vstd::prelude::*;
use crate::clock::{Timestamp, millis_between, clock_now, elapsed_millis};
use crate::protocol::{cs, sc, ALIVE_TIMEOUT_TIME_MS};
use crate::socks5::{TcpError, V4Addr, addr_text, format_addr};
use crate::stream::{Shutdown, RemoteStep};
use crate::wire::{
    be16_at, be32_at, id_frame, payload_frame, encode_id_frame, encode_payload_frame, read_be16,
    read_be32, copy_range,
};
use std::collections::HashMap;
use vstd::std_specs::iter::IteratorSpec;

verus! {

broadcast use vstd::std_specs::hash::group_hash_axioms;

/// What the tunnel core tells one port.
#[derive(Debug)]
pub enum PortMessage {
    /// Connect to the named host at the given port.
    ConnectDN(Vec<u8>, u16),
    /// A payload frame from the client, with its operation code: a connect
    /// request carrying the target's address text, or bytes to relay.
    Data(u8, Vec<u8>),
    /// The client side will send nothing more.
    ShutdownWrite,
    /// The port is closed.
    ClosePort,
}

/// The mathematical form of a `PortMessage`.
pub enum PortMessageView {
    ConnectDN(Seq<u8>, u16),
    Data(u8, Seq<u8>),
    ShutdownWrite,
    ClosePort,
}

impl View for PortMessage {
    type V = PortMessageView;

    open spec fn view(&self) -> PortMessageView {
        match self {
            PortMessage::ConnectDN(b, p) => PortMessageView::ConnectDN(b@, *p),
            PortMessage::Data(op, b) => PortMessageView::Data(*op, b@),
            PortMessage::ShutdownWrite => PortMessageView::ShutdownWrite,
            PortMessage::ClosePort => PortMessageView::ClosePort,
        }
    }
}

/// What reaches the server tunnel core: frames received from the client
/// (`CS...`), requests of the ports (`SC...`), the drop of a port half, and
/// the end of the client's byte stream.
#[derive(Debug)]
pub enum Message {
    CSHeartbeat,
    CSOpenPort(u32),
    CSClosePort(u32),
    CSShutdownWrite(u32),
    CSConnectDN(u32, Vec<u8>, u16),
    CSData(u8, u32, Vec<u8>),
    SCClosePort(u32),
    SCShutdownWrite(u32),
    SCConnectOk(u32, Vec<u8>),
    SCData(u32, Vec<u8>),
    PortDrop(u32),
    CloseTunnel,
}

/// The mathematical form of a `Message`.
pub enum MessageView {
    CSHeartbeat,
    CSOpenPort(u32),
    CSClosePort(u32),
    CSShutdownWrite(u32),
    CSConnectDN(u32, Seq<u8>, u16),
    CSData(u8, u32, Seq<u8>),
    SCClosePort(u32),
    SCShutdownWrite(u32),
    SCConnectOk(u32, Seq<u8>),
    SCData(u32, Seq<u8>),
    PortDrop(u32),
    CloseTunnel,
}

impl View for Message {
    type V = MessageView;

    open spec fn view(&self) -> MessageView {
        match self {
            Message::CSHeartbeat => MessageView::CSHeartbeat,
            Message::CSOpenPort(id) => MessageView::CSOpenPort(*id),
            Message::CSClosePort(id) => MessageView::CSClosePort(*id),
            Message::CSShutdownWrite(id) => MessageView::CSShutdownWrite(*id),
            Message::CSConnectDN(id, b, p) => MessageView::CSConnectDN(*id, b@, *p),
            Message::CSData(op, id, b) => MessageView::CSData(*op, *id, b@),
            Message::SCClosePort(id) => MessageView::SCClosePort(*id),
            Message::SCShutdownWrite(id) => MessageView::SCShutdownWrite(*id),
            Message::SCConnectOk(id, b) => MessageView::SCConnectOk(*id, b@),
            Message::SCData(id, b) => MessageView::SCData(*id, b@),
            Message::PortDrop(id) => MessageView::PortDrop(*id),
            Message::CloseTunnel => MessageView::CloseTunnel,
        }
    }
}

/// A tunnel accepted by the server; its work is done by the tunnel core.
#[derive(Clone, Copy)]
pub struct Tunnel;

/// The half of a port that carries what the target sends, and the port's
/// own reports, to the tunnel core.
pub struct TunnelWritePort {
    port_id: u32,
}

/// The half of a port that receives what the tunnel core routes to it.
pub struct TunnelReadPort {
    port_id: u32,
}

/// What the write half does with the result of one read from the target.
#[derive(Debug)]
pub enum LocalStep {
    /// Send the message to the core and read again.
    Forward(Message),
    /// Shut the target stream down as given, send the message, and stop.
    Finish(Shutdown, Message),
}

/// Where a port was asked to connect.
#[derive(Debug)]
pub enum Target {
    /// An address given as text.
    Addr(Vec<u8>),
    /// A named host and a port.
    Domain(Vec<u8>, u16),
    /// Nothing that can be connected to.
    Nothing,
}

/// The local address of a port's connection to its target: an IPv4
/// socket address, or the text of an address of another kind.
#[derive(Debug)]
pub enum BoundAddr {
    V4(V4Addr),
    Other(Vec<u8>),
}

impl TunnelWritePort {
    /// The port id.
    pub closed spec fn id(self) -> u32 {
        self.port_id
    }

    /// A write half for port `id`.
    pub fn new(id: u32) -> (p: TunnelWritePort)
        ensures
            p.id() == id,
    {
        TunnelWritePort { port_id: id }
    }

    /// The port id.
    pub fn port_id(&self) -> (r: u32)
        ensures
            r == self.id(),
    {
        self.port_id
    }

    /// Reports the connection, with the local address as text.
    pub fn connect_ok(&self, buf: Vec<u8>) -> (m: Message)
        ensures
            m@ == MessageView::SCConnectOk(self.id(), buf@),
    {
        Message::SCConnectOk(self.port_id, buf)
    }

    /// What the port reports once it has tried to connect: the local address
    /// of its connection as text when it has one, and the closing of the
    /// port when no connection was made or its address could not be read.
    pub fn connect_report(&self, local: Option<BoundAddr>) -> (m: Message)
        ensures
            match local {
                Some(BoundAddr::V4(a)) => m@ == MessageView::SCConnectOk(self.id(), addr_text(a)),
                Some(BoundAddr::Other(t)) => m@ == MessageView::SCConnectOk(self.id(), t@),
                None => m@ == MessageView::SCClosePort(self.id()),
            },
    {
        match local {
            Some(BoundAddr::V4(a)) => self.connect_ok(format_addr(&a)),
            Some(BoundAddr::Other(t)) => self.connect_ok(t),
            None => self.close(),
        }
    }

    /// Bytes from the target, to be sent to the client.
    pub fn write(&self, buf: Vec<u8>) -> (m: Message)
        ensures
            m@ == MessageView::SCData(self.id(), buf@),
    {
        Message::SCData(self.port_id, buf)
    }

    /// The target will send nothing more.
    pub fn shutdown_write(&self) -> (m: Message)
        ensures
            m@ == MessageView::SCShutdownWrite(self.id()),
    {
        Message::SCShutdownWrite(self.port_id)
    }

    /// Closes the port.
    pub fn close(&self) -> (m: Message)
        ensures
            m@ == MessageView::SCClosePort(self.id()),
    {
        Message::SCClosePort(self.port_id)
    }

    /// What the core is told when this half goes away.
    pub fn dropped(&self) -> (m: Message)
        ensures
            m@ == MessageView::PortDrop(self.id()),
    {
        Message::PortDrop(self.port_id)
    }

    /// What to do with one read from the target: forward the bytes; at the
    /// end of the stream stop reading and pass the shutdown on; on an error
    /// shut the stream down and close the port.
    pub fn on_local_read(&self, r: Result<Vec<u8>, TcpError>) -> (s: LocalStep)
        ensures
            match r {
                Ok(buf) => s matches LocalStep::Forward(m) && m@ == MessageView::SCData(
                    self.id(),
                    buf@,
                ),
                Err(TcpError::Eof) => s matches LocalStep::Finish(Shutdown::Read, m) && m@
                    == MessageView::SCShutdownWrite(self.id()),
                Err(_) => s matches LocalStep::Finish(Shutdown::Both, m) && m@
                    == MessageView::SCClosePort(self.id()),
            },
    {
        match r {
            Ok(buf) => LocalStep::Forward(self.write(buf)),
            Err(TcpError::Eof) => LocalStep::Finish(Shutdown::Read, self.shutdown_write()),
            Err(_) => LocalStep::Finish(Shutdown::Both, self.close()),
        }
    }
}

impl TunnelReadPort {
    /// The port id.
    pub closed spec fn id(self) -> u32 {
        self.port_id
    }

    /// A read half for port `id`.
    pub fn new(id: u32) -> (p: TunnelReadPort)
        ensures
            p.id() == id,
    {
        TunnelReadPort { port_id: id }
    }

    /// The port id.
    pub fn port_id(&self) -> (r: u32)
        ensures
            r == self.id(),
    {
        self.port_id
    }

    /// The message that arrived on the port's channel. The channel's
    /// sender lives as long as the core, so a message is always there.
    pub fn read(&self, received: Option<PortMessage>) -> (m: PortMessage)
        requires
            received is Some,
        ensures
            m@ == received.unwrap()@,
    {
        match received {
            Some(msg) => msg,
            None => PortMessage::ClosePort,
        }
    }

    /// What the core is told when this half goes away.
    pub fn dropped(&self) -> (m: Message)
        ensures
            m@ == MessageView::PortDrop(self.id()),
    {
        Message::PortDrop(self.port_id)
    }
}

/// Where the first message of a port asks to connect: a connect frame
/// carries the address as text, a domain request a host and a port.
pub fn port_target(msg: PortMessage) -> (t: Target)
    ensures
        match msg@ {
            PortMessageView::Data(op, b) => if op == cs::CONNECT {
                t matches Target::Addr(a) && a@ == b
            } else {
                t is Nothing
            },
            PortMessageView::ConnectDN(name, port) => t matches Target::Domain(n, p) && n@ == name
                && p == port,
            _ => t is Nothing,
        },
{
    match msg {
        PortMessage::Data(op, buf) => {
            if op == cs::CONNECT {
                Target::Addr(buf)
            } else {
                Target::Nothing
            }
        },
        PortMessage::ConnectDN(name, port) => Target::Domain(name, port),
        _ => Target::Nothing,
    }
}

/// What the read half does with a later message: data frames are written
/// to the target, a shutdown of the client side shuts down writing, and
/// anything else shuts the stream down.
pub fn remote_step(msg: PortMessage) -> (r: RemoteStep)
    ensures
        match msg@ {
            PortMessageView::Data(op, b) => if op == cs::DATA {
                r matches RemoteStep::Write(w) && w@ == b
            } else {
                r matches RemoteStep::Finish(Shutdown::Both)
            },
            PortMessageView::ShutdownWrite => r matches RemoteStep::Finish(Shutdown::Write),
            _ => r matches RemoteStep::Finish(Shutdown::Both),
        },
{
    match msg {
        PortMessage::Data(op, buf) => {
            if op == cs::DATA {
                RemoteStep::Write(buf)
            } else {
                RemoteStep::Finish(Shutdown::Both)
            }
        },
        PortMessage::ShutdownWrite => RemoteStep::Finish(Shutdown::Write),
        _ => RemoteStep::Finish(Shutdown::Both),
    }
}

/// The addresses a port task tries, in order, to reach a named host: each
/// IPv4 address the name resolved to, at the requested port; addresses of
/// other kinds (`None`) are skipped.
pub open spec fn dial_candidates(hosts: Seq<Option<V4Addr>>, port: u16) -> Seq<V4Addr>
    decreases hosts.len(),
{
    if hosts.len() == 0 {
        Seq::empty()
    } else {
        let rest = dial_candidates(hosts.drop_last(), port);
        match hosts.last() {
            Some(a) => rest.push(V4Addr { a: a.a, b: a.b, c: a.c, d: a.d, port: port }),
            None => rest,
        }
    }
}

/// The addresses to try, in order, for a named host that resolved to
/// `hosts`, as `dial_candidates` says.
pub fn dial_order(hosts: &Vec<Option<V4Addr>>, port: u16) -> (r: Vec<V4Addr>)
    ensures
        r@ == dial_candidates(hosts@, port),
{
    let mut r: Vec<V4Addr> = Vec::new();
    let mut i: usize = 0;
    while i < hosts.len()
        invariant
            i <= hosts@.len(),
            r@ == dial_candidates(hosts@.take(i as int), port),
        decreases hosts@.len() - i,
    {
        assert(hosts@.take(i + 1).drop_last() =~= hosts@.take(i as int));
        match &hosts[i] {
            Some(a) => r.push(V4Addr { a: a.a, b: a.b, c: a.c, d: a.d, port }),
            None => {},
        }
        i = i + 1;
    }
    assert(hosts@.take(hosts@.len() as int) =~= hosts@);
    r
}

/// What the core asks its driver to do, in order.
#[derive(Debug)]
pub enum Action {
    /// Write these bytes to the tunnel's TCP connection; if that fails the
    /// tunnel is broken.
    Write(Vec<u8>),
    /// Hand this message to the port with this id.
    Notify(u32, PortMessage),
    /// Create a channel for the port with this id and start its port task.
    Attach(u32),
    /// Forget the channel of the port with this id; the core has already
    /// forgotten the port.
    Detach(u32),
    /// The write before this action went through: take the port with this
    /// id out of the core's table with `ServerCore::remove_port`, and forget
    /// its channel. When that write fails, the port stays in the table.
    Remove(u32),
    /// The tunnel is over: stop the loop.
    Stop,
}

/// The mathematical form of an `Action`.
pub enum ActionView {
    Write(Seq<u8>),
    Notify(u32, PortMessageView),
    Attach(u32),
    Detach(u32),
    Remove(u32),
    Stop,
}

impl View for Action {
    type V = ActionView;

    open spec fn view(&self) -> ActionView {
        match self {
            Action::Write(b) => ActionView::Write(b@),
            Action::Notify(id, m) => ActionView::Notify(*id, m@),
            Action::Attach(id) => ActionView::Attach(*id),
            Action::Detach(id) => ActionView::Detach(*id),
            Action::Remove(id) => ActionView::Remove(*id),
            Action::Stop => ActionView::Stop,
        }
    }
}

/// The views of a sequence of actions.
pub open spec fn actions_view(a: Seq<Action>) -> Seq<ActionView> {
    a.map_values(|x: Action| x@)
}

/// What the core remembers of an open port: how many of its two halves are
/// still alive.
pub struct PortRecord {
    pub count: u32,
}

/// The state of a server tunnel core: the live-half count of each open
/// port, and when the client was last heard from.
pub struct ServerCoreView {
    pub ports: Map<u32, u32>,
    pub alive: Timestamp,
}

impl ServerCoreView {
    /// Every open port still has one or two live halves, and the last
    /// sign of life is a proper clock reading.
    pub open spec fn wf(self) -> bool {
        &&& self.alive.valid()
        &&& forall|id: u32| #[trigger] self.ports.contains_key(id) ==> 1 <= self.ports[id] <= 2
    }

    /// The same state, with the client heard from at `now`.
    pub open spec fn refreshed(self, now: Timestamp) -> ServerCoreView {
        ServerCoreView { ports: self.ports, alive: now }
    }

    /// The same state, with other ports.
    pub open spec fn with_ports(self, ports: Map<u32, u32>) -> ServerCoreView {
        ServerCoreView { ports, alive: self.alive }
    }

    /// `m` handed to port `id`, if that port is open.
    pub open spec fn notify_if_open(self, id: u32, m: PortMessageView) -> Seq<ActionView> {
        if self.ports.contains_key(id) {
            seq![ActionView::Notify(id, m)]
        } else {
            seq![]
        }
    }
}

/// How the server core reacts to a message `m` received at `now`: the next
/// state and the actions to perform.
///
/// Anything from the client counts as a sign of life. A heartbeat is
/// answered; opening a port records it with both halves alive and starts
/// its task; closing a port tells the port and forgets it; other requests
/// are routed to the port they concern, if it is open. Reports of the ports
/// become frames to the client; an open port that closes itself is told
/// so and reported, and only once that report is written is it forgotten. A port is forgotten when both of
/// its halves have been dropped, and the end of the client's stream ends
/// the tunnel.
pub open spec fn server_step(s: ServerCoreView, m: MessageView, now: Timestamp) -> (
    ServerCoreView,
    Seq<ActionView>,
) {
    match m {
        MessageView::CSHeartbeat => (
            s.refreshed(now),
            seq![ActionView::Write(seq![sc::HEARTBEAT_RSP])],
        ),
        MessageView::CSOpenPort(id) => (
            s.refreshed(now).with_ports(s.ports.insert(id, 2)),
            seq![ActionView::Attach(id)],
        ),
        MessageView::CSClosePort(id) => (
            s.refreshed(now).with_ports(s.ports.remove(id)),
            if s.ports.contains_key(id) {
                seq![ActionView::Notify(id, PortMessageView::ClosePort), ActionView::Detach(id)]
            } else {
                seq![]
            },
        ),
        MessageView::CSConnectDN(id, buf, port) => (
            s.refreshed(now),
            s.notify_if_open(id, PortMessageView::ConnectDN(buf, port)),
        ),
        MessageView::CSShutdownWrite(id) => (
            s.refreshed(now),
            s.notify_if_open(id, PortMessageView::ShutdownWrite),
        ),
        MessageView::CSData(op, id, buf) => (
            s.refreshed(now),
            s.notify_if_open(id, PortMessageView::Data(op, buf)),
        ),
        MessageView::SCClosePort(id) => (
            s,
            if s.ports.contains_key(id) {
                seq![
                    ActionView::Notify(id, PortMessageView::ClosePort),
                    ActionView::Write(id_frame(sc::CLOSE_PORT, id)),
                    ActionView::Remove(id),
                ]
            } else {
                seq![]
            },
        ),
        MessageView::SCShutdownWrite(id) => (
            s,
            seq![ActionView::Write(id_frame(sc::SHUTDOWN_WRITE, id))],
        ),
        MessageView::SCConnectOk(id, buf) => (
            s,
            seq![ActionView::Write(payload_frame(sc::CONNECT_OK, id, buf))],
        ),
        MessageView::SCData(id, buf) => (
            s,
            seq![ActionView::Write(payload_frame(sc::DATA, id, buf))],
        ),
        MessageView::PortDrop(id) => port_drop_step(s, id),
        MessageView::CloseTunnel => (s, seq![ActionView::Stop]),
    }
}

/// One half of port `id` is gone: the port is forgotten with its last half.
pub open spec fn port_drop_step(s: ServerCoreView, id: u32) -> (ServerCoreView, Seq<ActionView>) {
    if s.ports.contains_key(id) {
        if s.ports[id] - 1 == 0 {
            (s.with_ports(s.ports.remove(id)), seq![ActionView::Detach(id)])
        } else {
            (s.with_ports(s.ports.insert(id, (s.ports[id] - 1) as u32)), seq![])
        }
    } else {
        (s, seq![])
    }
}

/// What the core does when its timer fires at `now`: give up on a client
/// silent for longer than the alive timeout, and nothing otherwise.
pub open spec fn server_tick(s: ServerCoreView, now: Timestamp) -> Seq<ActionView> {
    if millis_between(now, s.alive) > ALIVE_TIMEOUT_TIME_MS {
        seq![ActionView::Stop]
    } else {
        seq![]
    }
}

/// Every step keeps every open port at one or two live halves.
pub proof fn lemma_server_step_keeps_wf(s: ServerCoreView, m: MessageView, now: Timestamp)
    requires
        s.wf(),
        now.valid(),
    ensures
        server_step(s, m, now).0.wf(),
{
    let r = server_step(s, m, now).0;
    assert forall|id: u32| #[trigger] r.ports.contains_key(id) implies 1 <= r.ports[id] <= 2 by {
        if s.ports.contains_key(id) {
        }
    }
}

/// A port lives as long as one of its halves: after the client opens it,
/// dropping one half keeps it open and silent, and dropping the other
/// forgets it, with a single `Detach`, leaving every other port as it was.
pub proof fn lemma_server_port_lives_until_both_halves_drop(
    s: ServerCoreView,
    id: u32,
    t1: Timestamp,
    t2: Timestamp,
    t3: Timestamp,
)
    requires
        s.wf(),
    ensures
        ({
            let (s1, a1) = server_step(s, MessageView::CSOpenPort(id), t1);
            let (s2, a2) = server_step(s1, MessageView::PortDrop(id), t2);
            let (s3, a3) = server_step(s2, MessageView::PortDrop(id), t3);
            &&& a1 == seq![ActionView::Attach(id)]
            &&& s1.ports.contains_key(id) && s1.ports[id] == 2
            &&& s2.ports.contains_key(id) && s2.ports[id] == 1 && a2 == Seq::<ActionView>::empty()
            &&& !s3.ports.contains_key(id)
            &&& a3 == seq![ActionView::Detach(id)]
            &&& s3.ports == s.ports.remove(id)
        }),
{
    let (s1, a1) = server_step(s, MessageView::CSOpenPort(id), t1);
    let (s2, a2) = server_step(s1, MessageView::PortDrop(id), t2);
    let (s3, a3) = server_step(s2, MessageView::PortDrop(id), t3);
    assert(s3.ports =~= s.ports.remove(id));
}

/// A port that the client closes is told so and forgotten at once. An open
/// port that closes itself is told so and reported to the client, and stays
/// in the table until that report is written; only then does `remove_port`
/// forget it, leaving the other ports as they were.
pub proof fn lemma_server_close_waits_for_frame(s: ServerCoreView, id: u32, now: Timestamp)
    ensures
        server_step(s, MessageView::CSClosePort(id), now).0.ports == s.ports.remove(id),
        s.ports.contains_key(id) ==> server_step(s, MessageView::CSClosePort(id), now).1 == seq![
            ActionView::Notify(id, PortMessageView::ClosePort),
            ActionView::Detach(id),
        ],
        server_step(s, MessageView::SCClosePort(id), now).0 == s,
        s.ports.contains_key(id) ==> server_step(s, MessageView::SCClosePort(id), now).1 == seq![
            ActionView::Notify(id, PortMessageView::ClosePort),
            ActionView::Write(id_frame(sc::CLOSE_PORT, id)),
            ActionView::Remove(id),
        ],
        !s.ports.contains_key(id) ==> server_step(s, MessageView::SCClosePort(id), now).1
            == Seq::<ActionView>::empty(),
        !s.with_ports(s.ports.remove(id)).ports.contains_key(id),
        forall|other: u32|
            other != id ==> s.with_ports(s.ports.remove(id)).ports.contains_key(other)
                == s.ports.contains_key(other),
{
}

/// What the client sends about a port that is not open reaches nobody and
/// changes no port.
pub proof fn lemma_server_unknown_port_unnotified(
    s: ServerCoreView,
    id: u32,
    op: u8,
    b: Seq<u8>,
    port: u16,
    now: Timestamp,
)
    requires
        !s.ports.contains_key(id),
    ensures
        server_step(s, MessageView::CSClosePort(id), now).1 == Seq::<ActionView>::empty(),
        server_step(s, MessageView::CSShutdownWrite(id), now).1 == Seq::<ActionView>::empty(),
        server_step(s, MessageView::CSConnectDN(id, b, port), now).1 == Seq::<ActionView>::empty(),
        server_step(s, MessageView::CSData(op, id, b), now).1 == Seq::<ActionView>::empty(),
        server_step(s, MessageView::CSClosePort(id), now).0.ports == s.ports,
{
    assert(s.ports.remove(id) =~= s.ports);
}

/// Anything the client sends is a sign of life: a tick up to the alive
/// timeout later does not end the tunnel; a tick after it does.
pub proof fn lemma_client_frame_keeps_server_alive(
    s: ServerCoreView,
    m: MessageView,
    now: Timestamp,
    later: Timestamp,
)
    requires
        m is CSHeartbeat || m is CSOpenPort || m is CSClosePort || m is CSShutdownWrite
            || m is CSConnectDN || m is CSData,
    ensures
        server_step(s, m, now).0.alive == now,
        millis_between(later, now) <= ALIVE_TIMEOUT_TIME_MS ==> server_tick(
            server_step(s, m, now).0,
            later,
        ) == Seq::<ActionView>::empty(),
        millis_between(later, now) > ALIVE_TIMEOUT_TIME_MS ==> server_tick(
            server_step(s, m, now).0,
            later,
        ) == seq![ActionView::Stop],
{
}

/// Only the client's frames are signs of its life: what the ports report to
/// the core leaves the time the client was last heard from as it was, so a
/// client that stays silent past the alive timeout is given up on at the
/// next tick, however busy the targets are.
pub proof fn lemma_port_reports_leave_liveness(
    s: ServerCoreView,
    m: MessageView,
    now: Timestamp,
    later: Timestamp,
)
    requires
        m is SCClosePort || m is SCShutdownWrite || m is SCConnectOk || m is SCData
            || m is PortDrop || m is CloseTunnel,
    ensures
        server_step(s, m, now).0.alive == s.alive,
        millis_between(later, s.alive) > ALIVE_TIMEOUT_TIME_MS ==> server_tick(
            server_step(s, m, now).0,
            later,
        ) == seq![ActionView::Stop],
{
}

/// What the client sends for an open port reaches that port intact: a
/// payload frame hands the port exactly its operation code and bytes, a
/// connect request by name hands it exactly the name and port asked for,
/// and the end of the client's stream is passed on; in each case that one
/// message is all the core does, and no port is opened or forgotten.
pub proof fn lemma_server_routes_requests_unchanged(
    s: ServerCoreView,
    id: u32,
    op: u8,
    b: Seq<u8>,
    name: Seq<u8>,
    port: u16,
    now: Timestamp,
)
    requires
        s.ports.contains_key(id),
    ensures
        server_step(s, MessageView::CSData(op, id, b), now).1 == seq![
            ActionView::Notify(id, PortMessageView::Data(op, b)),
        ],
        server_step(s, MessageView::CSConnectDN(id, name, port), now).1 == seq![
            ActionView::Notify(id, PortMessageView::ConnectDN(name, port)),
        ],
        server_step(s, MessageView::CSShutdownWrite(id), now).1 == seq![
            ActionView::Notify(id, PortMessageView::ShutdownWrite),
        ],
        server_step(s, MessageView::CSData(op, id, b), now).0.ports == s.ports,
        server_step(s, MessageView::CSConnectDN(id, name, port), now).0.ports == s.ports,
        server_step(s, MessageView::CSShutdownWrite(id), now).0.ports == s.ports,
{
}

/// The addresses to dial for a named host are exactly its IPv4 addresses,
/// in the order the name resolved to them, each at the requested port:
/// every other kind of address is left out, and nothing else is added. In
/// particular every IPv4 address the name resolved to is dialled.
pub proof fn lemma_dial_candidates_are_ipv4_hosts(hosts: Seq<Option<V4Addr>>, port: u16)
    ensures
        dial_candidates(hosts, port) == hosts.filter(|h: Option<V4Addr>| h is Some).map_values(
            |h: Option<V4Addr>| V4Addr { a: h->0.a, b: h->0.b, c: h->0.c, d: h->0.d, port: port },
        ),
        forall|k: int|
            #![trigger hosts[k]]
            0 <= k < hosts.len() && hosts[k] is Some ==> dial_candidates(hosts, port).contains(
                V4Addr {
                    a: hosts[k]->0.a,
                    b: hosts[k]->0.b,
                    c: hosts[k]->0.c,
                    d: hosts[k]->0.d,
                    port: port,
                },
            ),
        forall|j: int|
            0 <= j < dial_candidates(hosts, port).len() ==> (#[trigger] dial_candidates(
                hosts,
                port,
            )[j]).port == port,
    decreases hosts.len(),
{
    let f = |h: Option<V4Addr>| V4Addr { a: h->0.a, b: h->0.b, c: h->0.c, d: h->0.d, port: port };
    let p = |h: Option<V4Addr>| h is Some;
    let c = dial_candidates(hosts, port);
    if hosts.len() == 0 {
        assert(hosts.filter(p) =~= Seq::<Option<V4Addr>>::empty());
        assert(hosts.filter(p).map_values(f) =~= Seq::<V4Addr>::empty());
    } else {
        let init = hosts.drop_last();
        lemma_dial_candidates_are_ipv4_hosts(init, port);
        let rest = dial_candidates(init, port);
        reveal_with_fuel(Seq::filter, 2);
        assert(hosts.filter(p) == if p(hosts.last()) {
            init.filter(p).push(hosts.last())
        } else {
            init.filter(p)
        });
        if hosts.last() is Some {
            assert(init.filter(p).push(hosts.last()).map_values(f) =~= init.filter(p).map_values(
                f,
            ).push(f(hosts.last())));
        }
        assert forall|k: int|
            #![trigger hosts[k]]
            0 <= k < hosts.len() && hosts[k] is Some implies c.contains(f(hosts[k])) by {
            if k == hosts.len() - 1 {
                assert(c[c.len() - 1] == f(hosts[k]));
            } else {
                assert(init[k] == hosts[k]);
                let j = choose|j: int| 0 <= j < rest.len() && rest[j] == f(init[k]);
                assert(c[j] == rest[j]);
            }
        }
        assert forall|j: int| 0 <= j < c.len() implies (#[trigger] c[j]).port == port by {
            if j < rest.len() {
                assert(c[j] == rest[j]);
            }
        }
    }
}

/// The decision procedure of a server tunnel core.
pub struct ServerCore {
    ports: HashMap<u32, PortRecord>,
    alive: Timestamp,
}

impl View for ServerCore {
    type V = ServerCoreView;

    closed spec fn view(&self) -> ServerCoreView {
        ServerCoreView {
            ports: self.ports@.map_values(|r: PortRecord| r.count),
            alive: self.alive,
        }
    }
}

impl ServerCore {
    /// A core with no open ports that last heard from the client at `now`.
    pub fn new(now: Timestamp) -> (c: ServerCore)
        requires
            now.valid(),
        ensures
            c@.ports == Map::<u32, u32>::empty(),
            c@.alive == now,
            c@.wf(),
    {
        let c = ServerCore { ports: HashMap::new(), alive: now };
        assert(c@.ports =~= Map::<u32, u32>::empty());
        c
    }

    /// A core with no open ports, started now by the wall clock.
    pub fn start() -> (c: ServerCore)
        ensures
            c@.ports == Map::<u32, u32>::empty(),
            c@.wf(),
    {
        let now = clock_now();
        ServerCore::new(now)
    }

    /// Whether the port with this id is open.
    pub fn is_open(&self, id: u32) -> (r: bool)
        ensures
            r == self@.ports.contains_key(id),
    {
        self.ports.contains_key(&id)
    }

    /// The ids of all open ports, each once, in no particular order.
    pub fn open_ports(&self) -> (r: Vec<u32>)
        ensures
            r@.to_set() == self@.ports.dom(),
            r@.no_duplicates(),
    {
        let mut r: Vec<u32> = Vec::new();
        let ghost all = self.ports.keys().remaining().unref();
        for k in it: self.ports.keys()
            invariant
                it.seq().unref() == all,
                all.to_set() == self.ports@.dom(),
                all.no_duplicates(),
                r@ == all.take(it.index()),
        {
            r.push(*k);
            proof {
                assert(r@ =~= all.take(it.index() + 1));
            }
        }
        proof {
            assert(r@ =~= all);
            assert(self@.ports.dom() =~= self.ports@.dom());
        }
        r
    }

    /// Reacts to one message, as `server_step` says, at time `now`.
    pub fn on_message(&mut self, msg: Message, now: Timestamp) -> (acts: Vec<Action>)
        requires
            old(self)@.wf(),
            now.valid(),
        ensures
            final(self)@.wf(),
            (final(self)@, actions_view(acts@)) == server_step(old(self)@, msg@, now),
    {
        let ghost s = self@;
        let ghost mv = msg@;
        let mut acts: Vec<Action> = Vec::new();
        match msg {
            Message::CSHeartbeat => {
                self.alive = now;
                let mut rsp = Vec::new();
                rsp.push(sc::HEARTBEAT_RSP);
                acts.push(Action::Write(rsp));
            },
            Message::CSOpenPort(id) => {
                self.alive = now;
                self.ports.insert(id, PortRecord { count: 2 });
                acts.push(Action::Attach(id));
                proof {
                    assert(self@.ports =~= s.ports.insert(id, 2));
                }
            },
            Message::CSClosePort(id) => {
                self.alive = now;
                if self.ports.contains_key(&id) {
                    acts.push(Action::Notify(id, PortMessage::ClosePort));
                    acts.push(Action::Detach(id));
                }
                self.ports.remove(&id);
                proof {
                    assert(self@.ports =~= s.ports.remove(id));
                }
            },
            Message::CSConnectDN(id, buf, port) => {
                self.alive = now;
                if self.ports.contains_key(&id) {
                    acts.push(Action::Notify(id, PortMessage::ConnectDN(buf, port)));
                }
            },
            Message::CSShutdownWrite(id) => {
                self.alive = now;
                if self.ports.contains_key(&id) {
                    acts.push(Action::Notify(id, PortMessage::ShutdownWrite));
                }
            },
            Message::CSData(op, id, buf) => {
                self.alive = now;
                if self.ports.contains_key(&id) {
                    acts.push(Action::Notify(id, PortMessage::Data(op, buf)));
                }
            },
            Message::SCClosePort(id) => {
                if self.ports.contains_key(&id) {
                    acts.push(Action::Notify(id, PortMessage::ClosePort));
                    acts.push(Action::Write(encode_id_frame(sc::CLOSE_PORT, id)));
                    acts.push(Action::Remove(id));
                }
            },
            Message::SCShutdownWrite(id) => {
                acts.push(Action::Write(encode_id_frame(sc::SHUTDOWN_WRITE, id)));
            },
            Message::SCConnectOk(id, buf) => {
                acts.push(Action::Write(encode_payload_frame(sc::CONNECT_OK, id, buf.as_slice())));
            },
            Message::SCData(id, buf) => {
                acts.push(Action::Write(encode_payload_frame(sc::DATA, id, buf.as_slice())));
            },
            Message::PortDrop(id) => {
                match self.ports.remove(&id) {
                    Some(rec) => {
                        assert(s.ports.contains_key(id));
                        let count = rec.count - 1;
                        if count == 0 {
                            acts.push(Action::Detach(id));
                            proof {
                                assert(self@.ports =~= s.ports.remove(id));
                            }
                        } else {
                            self.ports.insert(id, PortRecord { count });
                            proof {
                                assert(self@.ports =~= s.ports.insert(id, count));
                            }
                        }
                    },
                    None => {
                        proof {
                            assert(self@.ports =~= s.ports);
                        }
                    },
                }
            },
            Message::CloseTunnel => {
                acts.push(Action::Stop);
            },
        }
        proof {
            let expected = server_step(s, mv, now);
            assert(actions_view(acts@) =~= expected.1);
            assert(self@ == expected.0);
        }
        acts
    }

    /// Reacts to a tick of the liveness timer, as `server_tick` says, at
    /// time `now`.
    pub fn on_tick(&self, now: Timestamp) -> (acts: Vec<Action>)
        requires
            self@.wf(),
            now.valid(),
            now.span_fits(self@.alive),
        ensures
            actions_view(acts@) == server_tick(self@, now),
    {
        let mut acts: Vec<Action> = Vec::new();
        if elapsed_millis(now, self.alive) > ALIVE_TIMEOUT_TIME_MS {
            acts.push(Action::Stop);
        }
        assert(actions_view(acts@) =~= server_tick(self@, now));
        acts
    }

    /// Reacts to a tick of the liveness timer read at `now`: as
    /// `server_tick` says when the time since the last sign of life can be
    /// measured, and `None` exactly when it cannot.
    pub fn tick_at(&self, now: Timestamp) -> (r: Option<Vec<Action>>)
        requires
            self@.wf(),
            now.valid(),
        ensures
            match r {
                Some(a) => now.span_fits(self@.alive) && actions_view(a@) == server_tick(self@, now),
                None => !now.span_fits(self@.alive),
            },
    {
        if now.span_fits_exec(&self.alive) {
            Some(self.on_tick(now))
        } else {
            None
        }
    }

    /// Forgets port `id` once its close report has been written.
    pub fn remove_port(&mut self, id: u32)
        requires
            old(self)@.wf(),
        ensures
            final(self)@ == old(self)@.with_ports(old(self)@.ports.remove(id)),
            final(self)@.wf(),
    {
        let ghost s = self@;
        self.ports.remove(&id);
        proof {
            assert(self@.ports =~= s.ports.remove(id));
        }
    }

    /// Reads the wall clock and reacts to a message (`Some`) or to a tick
    /// of the liveness timer (`None`). A tick whose reading lies too far
    /// from the last sign of life to be measured changes nothing and gives
    /// `None`.
    pub fn handle(&mut self, input: Option<Message>) -> (r: Option<Vec<Action>>)
        requires
            old(self)@.wf(),
        ensures
            final(self)@.wf(),
            match input {
                Some(m) => r is Some && exists|t: Timestamp|
                    t.valid() && (final(self)@, actions_view(r.unwrap()@)) == #[trigger] server_step(
                        old(self)@,
                        m@,
                        t,
                    ),
                None => final(self)@ == old(self)@ && exists|t: Timestamp|
                    t.valid() && match r {
                        Some(a) => t.span_fits(old(self)@.alive) && actions_view(a@)
                            == #[trigger] server_tick(old(self)@, t),
                        None => !t.span_fits(old(self)@.alive),
                    },
            },
    {
        let now = clock_now();
        match input {
            Some(m) => Some(self.on_message(m, now)),
            None => {
                let r = self.tick_at(now);
                proof {
                    let _ = server_tick(self@, now);
                }
                r
            },
        }
    }
}

/// What reading a frame from the start of the client's byte stream gives.
#[derive(Debug)]
pub enum Received {
    /// A frame of this many bytes carrying this message.
    Frame(usize, Message),
    /// The bytes end inside a frame.
    NeedMore,
}

/// The mathematical form of `Received`.
pub enum ReceivedView {
    Frame(int, MessageView),
    NeedMore,
}

impl View for Received {
    type V = ReceivedView;

    open spec fn view(&self) -> ReceivedView {
        match self {
            Received::Frame(n, m) => ReceivedView::Frame(*n as int, m@),
            Received::NeedMore => ReceivedView::NeedMore,
        }
    }
}

/// A domain request whose length field is below two, too short to hold
/// the port: the reader gives up on it.
pub open spec fn domain_length_underflows(s: Seq<u8>) -> bool {
    s.len() >= 9 && s[0] == cs::CONNECT_DOMAIN_NAME && be32_at(s, 5) < 2
}

/// The frame at the start of the client's byte stream `s`. A heartbeat is
/// one byte; every other frame carries a port id. A domain request carries
/// a length field that counts the name and the two port bytes, and every
/// frame with an operation code not named here is a payload frame.
pub open spec fn cs_decode(s: Seq<u8>) -> ReceivedView {
    if s.len() < 1 {
        ReceivedView::NeedMore
    } else if s[0] == cs::HEARTBEAT {
        ReceivedView::Frame(1, MessageView::CSHeartbeat)
    } else if s.len() < 5 {
        ReceivedView::NeedMore
    } else if s[0] == cs::OPEN_PORT {
        ReceivedView::Frame(5, MessageView::CSOpenPort(be32_at(s, 1)))
    } else if s[0] == cs::CLOSE_PORT {
        ReceivedView::Frame(5, MessageView::CSClosePort(be32_at(s, 1)))
    } else if s[0] == cs::SHUTDOWN_WRITE {
        ReceivedView::Frame(5, MessageView::CSShutdownWrite(be32_at(s, 1)))
    } else if s.len() < 9 || s.len() < 9 + be32_at(s, 5) {
        ReceivedView::NeedMore
    } else if s[0] == cs::CONNECT_DOMAIN_NAME {
        let end = 9 + be32_at(s, 5) - 2;
        ReceivedView::Frame(
            9 + be32_at(s, 5),
            MessageView::CSConnectDN(be32_at(s, 1), s.subrange(9, end), be16_at(s, end)),
        )
    } else {
        ReceivedView::Frame(
            9 + be32_at(s, 5),
            MessageView::CSData(s[0], be32_at(s, 1), s.subrange(9, 9 + be32_at(s, 5))),
        )
    }
}

/// Executable form of `domain_length_underflows`.
pub fn length_underflows(buf: &[u8]) -> (r: bool)
    ensures
        r == domain_length_underflows(buf@),
{
    buf.len() >= 9 && buf[0] == cs::CONNECT_DOMAIN_NAME && read_be32(buf, 5) < 2
}

/// Reads the frame at the start of `buf`, the bytes received from the
/// client and not yet consumed.
pub fn next_message(buf: &[u8]) -> (r: Received)
    requires
        !domain_length_underflows(buf@),
    ensures
        r@ == cs_decode(buf@),
{
    if buf.len() < 1 {
        return Received::NeedMore;
    }
    let op = buf[0];
    if op == cs::HEARTBEAT {
        return Received::Frame(1, Message::CSHeartbeat);
    }
    if buf.len() < 5 {
        return Received::NeedMore;
    }
    let id = read_be32(buf, 1);
    if op == cs::OPEN_PORT {
        return Received::Frame(5, Message::CSOpenPort(id));
    }
    if op == cs::CLOSE_PORT {
        return Received::Frame(5, Message::CSClosePort(id));
    }
    if op == cs::SHUTDOWN_WRITE {
        return Received::Frame(5, Message::CSShutdownWrite(id));
    }
    if buf.len() < 9 {
        return Received::NeedMore;
    }
    let len = read_be32(buf, 5) as usize;
    if buf.len() - 9 < len {
        return Received::NeedMore;
    }
    if op == cs::CONNECT_DOMAIN_NAME {
        let end = 9 + len - 2;
        let name = copy_range(buf, 9, end);
        let port = read_be16(buf, end);
        Received::Frame(9 + len, Message::CSConnectDN(id, name, port))
    } else {
        let payload = copy_range(buf, 9, 9 + len);
        Received::Frame(9 + len, Message::CSData(op, id, payload))
    }
}

} // verus!
