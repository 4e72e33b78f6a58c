//! The client end of a tunnel.
//!
//! Every browser connection accepted by the local proxy becomes a *port* of
//! one tunnel: `Tunnel::open_port` hands out a write half and a read half
//! that share a port id. The halves talk to the tunnel core through
//! `Message`s; the core multiplexes all ports over one TCP connection to the
//! server, sends heartbeats, and routes what the server sends back to the
//! right port as `PortMessage`s.
//!
//! `ClientCore` holds the core's decisions: for each message, and for each
//! tick of the heartbeat timer, it updates its table of open ports and
//! returns the `Action`s to perform, in order.

use vstd::prelude::*;
use crate::clock::{Timestamp, millis_between, clock_now, elapsed_millis};
use crate::protocol::{cs, sc, ALIVE_TIMEOUT_TIME_MS};
use crate::socks5::{
    ConnectInfo, TcpError, V4Addr, format_addr, addr_text, parse_addr, success_reply, reply_bytes,
    REP_SUCCEEDED,
};
use crate::wire::{
    be32_at, id_frame, payload_frame, domain_frame, domain_len_fits, encode_id_frame,
    encode_payload_frame, encode_domain_frame, read_be32, copy_range,
};
use crate::text::{utf8_or_empty, text_or_empty};
use crate::stream::{Shutdown, RemoteStep};
use std::collections::HashMap;
use vstd::std_specs::iter::IteratorSpec;

verus! {

broadcast use vstd::std_specs::hash::group_hash_axioms;

/// What the tunnel core tells one port.
#[derive(Debug)]
pub enum PortMessage {
    /// The server connected; the bytes are its local address as text.
    ConnectOk(Vec<u8>),
    /// Bytes from the remote host.
    Data(Vec<u8>),
    /// The remote host will send nothing more.
    ShutdownWrite,
    /// The port is closed.
    ClosePort,
}

/// The mathematical form of a `PortMessage`.
pub enum PortMessageView {
    ConnectOk(Seq<u8>),
    Data(Seq<u8>),
    ShutdownWrite,
    ClosePort,
}

impl View for PortMessage {
    type V = PortMessageView;

    open spec fn view(&self) -> PortMessageView {
        match self {
            PortMessage::ConnectOk(b) => PortMessageView::ConnectOk(b@),
            PortMessage::Data(b) => PortMessageView::Data(b@),
            PortMessage::ShutdownWrite => PortMessageView::ShutdownWrite,
            PortMessage::ClosePort => PortMessageView::ClosePort,
        }
    }
}

/// What reaches the client tunnel core: requests of the ports (`CS...`),
/// frames received from the server (`SC...`), and the drop of a port half.
#[derive(Debug)]
pub enum Message {
    CSOpenPort(u32),
    CSConnect(u32, Vec<u8>),
    CSShutdownWrite(u32),
    CSConnectDN(u32, Vec<u8>, u16),
    CSClosePort(u32),
    CSData(u32, Vec<u8>),
    SCHeartbeat,
    SCClosePort(u32),
    SCShutdownWrite(u32),
    SCConnectOk(u32, Vec<u8>),
    SCData(u32, Vec<u8>),
    PortDrop(u32),
}

/// The mathematical form of a `Message`.
pub enum MessageView {
    CSOpenPort(u32),
    CSConnect(u32, Seq<u8>),
    CSShutdownWrite(u32),
    CSConnectDN(u32, Seq<u8>, u16),
    CSClosePort(u32),
    CSData(u32, Seq<u8>),
    SCHeartbeat,
    SCClosePort(u32),
    SCShutdownWrite(u32),
    SCConnectOk(u32, Seq<u8>),
    SCData(u32, Seq<u8>),
    PortDrop(u32),
}

impl View for Message {
    type V = MessageView;

    open spec fn view(&self) -> MessageView {
        match self {
            Message::CSOpenPort(id) => MessageView::CSOpenPort(*id),
            Message::CSConnect(id, b) => MessageView::CSConnect(*id, b@),
            Message::CSShutdownWrite(id) => MessageView::CSShutdownWrite(*id),
            Message::CSConnectDN(id, b, p) => MessageView::CSConnectDN(*id, b@, *p),
            Message::CSClosePort(id) => MessageView::CSClosePort(*id),
            Message::CSData(id, b) => MessageView::CSData(*id, b@),
            Message::SCHeartbeat => MessageView::SCHeartbeat,
            Message::SCClosePort(id) => MessageView::SCClosePort(*id),
            Message::SCShutdownWrite(id) => MessageView::SCShutdownWrite(*id),
            Message::SCConnectOk(id, b) => MessageView::SCConnectOk(*id, b@),
            Message::SCData(id, b) => MessageView::SCData(*id, b@),
            Message::PortDrop(id) => MessageView::PortDrop(*id),
        }
    }
}

/// Whether the core can frame `m`: a domain name must leave room for its
/// length field.
pub open spec fn message_fits(m: MessageView) -> bool {
    match m {
        MessageView::CSConnectDN(_, name, _) => domain_len_fits(name.len()),
        _ => true,
    }
}

impl Message {
    /// Executable form of `message_fits`.
    pub fn fits(&self) -> (r: bool)
        ensures
            r == message_fits(self@),
    {
        match self {
            Message::CSConnectDN(_, name, _) => name.len() as u32 <= u32::MAX - 2,
            _ => true,
        }
    }
}

/// The tunnel as the browser side sees it: a source of fresh port ids.
pub struct Tunnel {
    tunnel_id: u32,
}

/// The half of a port that carries the browser's requests and bytes to the
/// tunnel core.
pub struct TunnelWritePort {
    port_id: u32,
}

/// The half of a port that receives what the tunnel core routes to it.
pub struct TunnelReadPort {
    port_id: u32,
}

impl Tunnel {
    /// The id the next opened port gets.
    pub closed spec fn next_id(self) -> u32 {
        self.tunnel_id
    }

    /// A tunnel whose first port gets id 1.
    pub fn new() -> (t: Tunnel)
        ensures
            t.next_id() == 1,
    {
        Tunnel { tunnel_id: 1 }
    }

    /// The id the next opened port gets.
    pub fn next_port_id(&self) -> (r: u32)
        ensures
            r == self.next_id(),
    {
        self.tunnel_id
    }

    /// Opens a port for one browser connection: both halves get the next
    /// id, and the id after it is kept for the next port.
    pub fn open_port(&mut self) -> (r: (TunnelWritePort, TunnelReadPort))
        requires
            old(self).next_id() < u32::MAX,
        ensures
            r.0.id() == old(self).next_id(),
            r.1.id() == old(self).next_id(),
            final(self).next_id() == old(self).next_id() + 1,
    {
        let id = self.tunnel_id;
        self.tunnel_id = self.tunnel_id + 1;
        (TunnelWritePort { port_id: id }, TunnelReadPort { port_id: id })
    }
}

/// One `open_port` call: the port gets the tunnel's next id, and the
/// tunnel moves on to the id after it, as the contract of `open_port` says.
pub open spec fn opened(before: Tunnel, id: u32, after: Tunnel) -> bool {
    id == before.next_id() && after.next_id() == before.next_id() + 1
}

/// Ports opened one after another on one tunnel get consecutive ids: the
/// k-th call after `tunnels[0]` hands out `tunnels[0].next_id() + k`, so the
/// ids are strictly increasing and no two ports share one.
pub proof fn lemma_open_port_ids_increase(tunnels: Seq<Tunnel>, ids: Seq<u32>)
    requires
        tunnels.len() == ids.len() + 1,
        forall|k: int| #![trigger ids[k]] 0 <= k < ids.len() ==> opened(tunnels[k], ids[k], tunnels[k + 1]),
    ensures
        forall|k: int| #![trigger ids[k]] 0 <= k < ids.len() ==> ids[k] == tunnels[0].next_id() + k,
        forall|j: int, k: int| 0 <= j < k < ids.len() ==> #[trigger] ids[j] < #[trigger] ids[k],
    decreases ids.len(),
{
    if ids.len() > 0 {
        let n = ids.len() - 1;
        let t = tunnels.drop_last();
        let i = ids.drop_last();
        assert forall|k: int| #![trigger i[k]] 0 <= k < i.len() implies opened(t[k], i[k], t[k + 1]) by {
            assert(ids[k] == i[k]);
        }
        lemma_open_port_ids_increase(t, i);
        assert(ids[n] == tunnels[n].next_id());
        assert forall|k: int| #![trigger ids[k]] 0 <= k < ids.len() implies ids[k] == tunnels[0].next_id()
            + k by {
            if k < n {
                assert(i[k] == t[0].next_id() + k);
            } else if n > 0 {
                assert(i[n - 1] == ids[n - 1]);
                assert(ids[n - 1] == tunnels[0].next_id() + (n - 1));
            }
        }
    }
}

/// The tunnel that takes the browser connection after the one that went to
/// tunnel `index`: the tunnels take connections in turn.
pub fn next_tunnel_index(index: usize, count: usize) -> (r: usize)
    requires
        index < count,
    ensures
        r == (index + 1) % (count as int),
        r < count,
{
    if index + 1 == count {
        assert((count as int) % (count as int) == 0) by (nonlinear_arith)
            requires
                count > 0,
        ;
        0
    } else {
        assert((index + 1) % (count as int) == index + 1) by (nonlinear_arith)
            requires
                0 <= index + 1 < count,
        ;
        index + 1
    }
}

/// What the write half does with the result of one read from the browser.
#[derive(Debug)]
pub enum LocalStep {
    /// Send the message to the core and read again.
    Forward(Message),
    /// Shut the browser stream down as given, send the message, and stop.
    Finish(Shutdown, Message),
}

impl TunnelWritePort {
    /// The port id.
    pub closed spec fn id(self) -> u32 {
        self.port_id
    }

    /// The port id.
    pub fn port_id(&self) -> (r: u32)
        ensures
            r == self.id(),
    {
        self.port_id
    }

    /// Tells the core that this port is open, so that it records the port
    /// and opens it at the server.
    pub fn open(&self) -> (m: Message)
        ensures
            m@ == MessageView::CSOpenPort(self.id()),
    {
        Message::CSOpenPort(self.port_id)
    }

    /// Bytes from the browser, to be sent to the remote host.
    pub fn write(&self, buf: Vec<u8>) -> (m: Message)
        ensures
            m@ == MessageView::CSData(self.id(), buf@),
    {
        Message::CSData(self.port_id, buf)
    }

    /// Asks the server to connect the port to the address given as text.
    pub fn connect(&self, buf: Vec<u8>) -> (m: Message)
        ensures
            m@ == MessageView::CSConnect(self.id(), buf@),
    {
        Message::CSConnect(self.port_id, buf)
    }

    /// Asks the server to connect the port to a named host and port.
    pub fn connect_domain_name(&self, buf: Vec<u8>, port: u16) -> (m: Message)
        ensures
            m@ == MessageView::CSConnectDN(self.id(), buf@, port),
    {
        Message::CSConnectDN(self.port_id, buf, port)
    }

    /// The browser will send nothing more.
    pub fn shutdown_write(&self) -> (m: Message)
        ensures
            m@ == MessageView::CSShutdownWrite(self.id()),
    {
        Message::CSShutdownWrite(self.port_id)
    }

    /// Closes the port.
    pub fn close(&self) -> (m: Message)
        ensures
            m@ == MessageView::CSClosePort(self.id()),
    {
        Message::CSClosePort(self.port_id)
    }

    /// What the core is told when this half goes away.
    pub fn dropped(&self) -> (m: Message)
        ensures
            m@ == MessageView::PortDrop(self.id()),
    {
        Message::PortDrop(self.port_id)
    }

    /// The request that follows the SOCKS5 handshake, and whether the port
    /// goes on to forward bytes: an IPv4 target is sent as its text form,
    /// a named host as name and port; an unsupported request or a failed
    /// handshake closes the port.
    pub fn request(&self, target: Result<ConnectInfo, TcpError>) -> (r: (Message, bool))
        ensures
            match target {
                Ok(ConnectInfo::Addr(a)) => r.0@ == MessageView::CSConnect(self.id(), addr_text(a))
                    && r.1,
                Ok(ConnectInfo::Domain(name, port)) => r.0@ == MessageView::CSConnectDN(
                    self.id(),
                    name@,
                    port,
                ) && r.1,
                _ => r.0@ == MessageView::CSClosePort(self.id()) && !r.1,
            },
    {
        match target {
            Ok(ConnectInfo::Addr(addr)) => {
                let text = format_addr(&addr);
                (self.connect(text), true)
            },
            Ok(ConnectInfo::Domain(name, port)) => (self.connect_domain_name(name, port), true),
            _ => (self.close(), false),
        }
    }

    /// What to do with one read from the browser: forward the bytes; at the
    /// end of the stream stop reading and pass the shutdown on; on an error
    /// shut the stream down and close the port.
    pub fn on_local_read(&self, r: Result<Vec<u8>, TcpError>) -> (s: LocalStep)
        ensures
            match r {
                Ok(buf) => s matches LocalStep::Forward(m) && m@ == MessageView::CSData(
                    self.id(),
                    buf@,
                ),
                Err(TcpError::Eof) => s matches LocalStep::Finish(Shutdown::Read, m) && m@
                    == MessageView::CSShutdownWrite(self.id()),
                Err(_) => s matches LocalStep::Finish(Shutdown::Both, m) && m@
                    == MessageView::CSClosePort(self.id()),
            },
    {
        match r {
            Ok(buf) => LocalStep::Forward(self.write(buf)),
            Err(TcpError::Eof) => LocalStep::Finish(Shutdown::Read, self.shutdown_write()),
            Err(_) => LocalStep::Finish(Shutdown::Both, self.close()),
        }
    }
}

impl TunnelReadPort {
    /// The port id.
    pub closed spec fn id(self) -> u32 {
        self.port_id
    }

    /// The port id.
    pub fn port_id(&self) -> (r: u32)
        ensures
            r == self.id(),
    {
        self.port_id
    }

    /// The message that arrived on the port's channel; a channel whose
    /// sender is gone reads as a closed port.
    pub fn read(&self, received: Option<PortMessage>) -> (m: PortMessage)
        ensures
            match received {
                Some(x) => m@ == x@,
                None => m@ == PortMessageView::ClosePort,
            },
    {
        match received {
            Some(msg) => msg,
            None => PortMessage::ClosePort,
        }
    }

    /// What the core is told when this half goes away.
    pub fn dropped(&self) -> (m: Message)
        ensures
            m@ == MessageView::PortDrop(self.id()),
    {
        Message::PortDrop(self.port_id)
    }
}

/// How the read half starts, once the first message for its port arrives.
#[derive(Debug)]
pub enum ReplyStart {
    /// Send this SOCKS5 success reply to the browser, then relay.
    Reply(Vec<u8>),
    /// The server reported its address as this text, which is not the
    /// text form of an IPv4 socket address: have the system resolve it,
    /// then reply and relay.
    Resolve(Vec<u8>),
    /// No connection was made: reply nothing and shut the browser's
    /// stream down both ways.
    Shutdown,
}

/// How the read half starts on the first message for its port: a report
/// of the server's connection, when it is the text form of an IPv4 socket
/// address, becomes the success reply carrying that address; any other
/// report text is left to the system resolver; and anything but a report
/// means the connection failed.
pub fn reply_start(msg: PortMessage) -> (r: ReplyStart)
    ensures
        match msg@ {
            PortMessageView::ConnectOk(b) => match r {
                ReplyStart::Reply(rep) => exists|a: V4Addr|
                    addr_text(a) == b && rep@ == #[trigger] reply_bytes(a, REP_SUCCEEDED),
                ReplyStart::Resolve(t) => t@ == b && forall|a: V4Addr| addr_text(a) != b,
                ReplyStart::Shutdown => false,
            },
            _ => r is Shutdown,
        },
{
    match msg {
        PortMessage::ConnectOk(buf) => match parse_addr(buf.as_slice()) {
            Some(a) => ReplyStart::Reply(success_reply(a)),
            None => ReplyStart::Resolve(buf),
        },
        _ => ReplyStart::Shutdown,
    }
}

/// What the read half does with a later message: bytes are written to the
/// browser, a shutdown of the remote side shuts down writing, and anything
/// else shuts the stream down.
pub fn remote_step(msg: PortMessage) -> (r: RemoteStep)
    ensures
        match msg@ {
            PortMessageView::Data(b) => r matches RemoteStep::Write(w) && w@ == b,
            PortMessageView::ShutdownWrite => r matches RemoteStep::Finish(Shutdown::Write),
            _ => r matches RemoteStep::Finish(Shutdown::Both),
        },
{
    match msg {
        PortMessage::Data(buf) => RemoteStep::Write(buf),
        PortMessage::ShutdownWrite => RemoteStep::Finish(Shutdown::Write),
        _ => RemoteStep::Finish(Shutdown::Both),
    }
}


/// What the core asks its driver to do, in order.
#[derive(Debug)]
pub enum Action {
    /// Write these bytes to the tunnel's TCP connection; if that fails the
    /// tunnel is broken.
    Write(Vec<u8>),
    /// Hand this message to the port with this id.
    Notify(u32, PortMessage),
    /// Start routing to the port with this id through the channel that came
    /// with its opening.
    Attach(u32),
    /// Forget the channel of the port with this id; the core has already
    /// forgotten the port.
    Detach(u32),
    /// The write before this action went through: take the port with this
    /// id out of the core's table with `ClientCore::remove_port`, and forget
    /// its channel. When that write fails, the port stays in the table.
    Remove(u32),
    /// The tunnel is dead: stop the loop.
    Stop,
}

/// The mathematical form of an `Action`.
pub enum ActionView {
    Write(Seq<u8>),
    Notify(u32, PortMessageView),
    Attach(u32),
    Detach(u32),
    Remove(u32),
    Stop,
}

impl View for Action {
    type V = ActionView;

    open spec fn view(&self) -> ActionView {
        match self {
            Action::Write(b) => ActionView::Write(b@),
            Action::Notify(id, m) => ActionView::Notify(*id, m@),
            Action::Attach(id) => ActionView::Attach(*id),
            Action::Detach(id) => ActionView::Detach(*id),
            Action::Remove(id) => ActionView::Remove(*id),
            Action::Stop => ActionView::Stop,
        }
    }
}

/// The views of a sequence of actions.
pub open spec fn actions_view(a: Seq<Action>) -> Seq<ActionView> {
    a.map_values(|x: Action| x@)
}

/// What the core remembers of an open port: the host it was asked to reach
/// by name, and how many of the port's two halves are still alive.
pub struct PortRecord {
    pub host: Vec<u8>,
    pub port: u16,
    pub count: u32,
}

/// The mathematical form of a `PortRecord`.
pub struct PortRecordView {
    pub host: Seq<u8>,
    pub port: u16,
    pub count: u32,
}

impl View for PortRecord {
    type V = PortRecordView;

    open spec fn view(&self) -> PortRecordView {
        PortRecordView { host: self.host@, port: self.port, count: self.count }
    }
}

/// The state of a client tunnel core: its tunnel number, its open ports by
/// id, and when the server was last heard from.
pub struct ClientCoreView {
    pub tid: u32,
    pub ports: Map<u32, PortRecordView>,
    pub alive: Timestamp,
}

impl ClientCoreView {
    /// Every open port still has one or two live halves, and the last
    /// sign of life is a proper clock reading.
    pub open spec fn wf(self) -> bool {
        &&& self.alive.valid()
        &&& forall|id: u32|
            #[trigger] self.ports.contains_key(id) ==> 1 <= self.ports[id].count <= 2
    }

    /// The same state, with the server heard from at `now`.
    pub open spec fn refreshed(self, now: Timestamp) -> ClientCoreView {
        ClientCoreView { tid: self.tid, ports: self.ports, alive: now }
    }

    /// The same state, with other ports.
    pub open spec fn with_ports(self, ports: Map<u32, PortRecordView>) -> ClientCoreView {
        ClientCoreView { tid: self.tid, ports, alive: self.alive }
    }

    /// `m` handed to port `id`, if that port is open.
    pub open spec fn notify_if_open(self, id: u32, m: PortMessageView) -> Seq<ActionView> {
        if self.ports.contains_key(id) {
            seq![ActionView::Notify(id, m)]
        } else {
            seq![]
        }
    }
}

/// The record of a freshly opened port: no host yet, both halves alive.
pub open spec fn fresh_record() -> PortRecordView {
    PortRecordView { host: Seq::empty(), port: 0, count: 2 }
}

/// How the client core reacts to a message `m` received at `now`: the next
/// state and the actions to perform.
///
/// Requests of the ports become frames to the server; opening a port
/// records it with both halves alive, naming a host records the host, and
/// closing an open port tells the port and tells the server, and only then,
/// once that frame is written, asks for the port to be forgotten.
/// Anything from the server counts as a sign of life and is routed to the
/// port it concerns, if that port is open. A port is forgotten when both of
/// its halves have been dropped.
pub open spec fn client_step(s: ClientCoreView, m: MessageView, now: Timestamp) -> (
    ClientCoreView,
    Seq<ActionView>,
) {
    match m {
        MessageView::CSOpenPort(id) => (
            s.with_ports(s.ports.insert(id, fresh_record())),
            seq![ActionView::Attach(id), ActionView::Write(id_frame(cs::OPEN_PORT, id))],
        ),
        MessageView::CSConnect(id, buf) => (
            s,
            seq![ActionView::Write(payload_frame(cs::CONNECT, id, buf))],
        ),
        MessageView::CSConnectDN(id, buf, port) => (
            if s.ports.contains_key(id) {
                s.with_ports(
                    s.ports.insert(
                        id,
                        PortRecordView {
                            host: utf8_or_empty(buf),
                            port: port,
                            count: s.ports[id].count,
                        },
                    ),
                )
            } else {
                s
            },
            seq![ActionView::Write(domain_frame(id, buf, port))],
        ),
        MessageView::CSShutdownWrite(id) => (
            s,
            seq![ActionView::Write(id_frame(cs::SHUTDOWN_WRITE, id))],
        ),
        MessageView::CSData(id, buf) => (
            s,
            seq![ActionView::Write(payload_frame(cs::DATA, id, buf))],
        ),
        MessageView::CSClosePort(id) => (
            s,
            if s.ports.contains_key(id) {
                seq![
                    ActionView::Notify(id, PortMessageView::ClosePort),
                    ActionView::Write(id_frame(cs::CLOSE_PORT, id)),
                    ActionView::Remove(id),
                ]
            } else {
                seq![]
            },
        ),
        MessageView::SCHeartbeat => (s.refreshed(now), seq![]),
        MessageView::SCClosePort(id) => (
            s.refreshed(now).with_ports(s.ports.remove(id)),
            if s.ports.contains_key(id) {
                seq![ActionView::Notify(id, PortMessageView::ClosePort), ActionView::Detach(id)]
            } else {
                seq![]
            },
        ),
        MessageView::SCShutdownWrite(id) => (
            s.refreshed(now),
            s.notify_if_open(id, PortMessageView::ShutdownWrite),
        ),
        MessageView::SCConnectOk(id, buf) => (
            s.refreshed(now),
            s.notify_if_open(id, PortMessageView::ConnectOk(buf)),
        ),
        MessageView::SCData(id, buf) => (
            s.refreshed(now),
            s.notify_if_open(id, PortMessageView::Data(buf)),
        ),
        MessageView::PortDrop(id) => port_drop_step(s, id),
    }
}

/// One half of port `id` is gone: the port is forgotten with its last half.
pub open spec fn port_drop_step(s: ClientCoreView, id: u32) -> (ClientCoreView, Seq<ActionView>) {
    if s.ports.contains_key(id) {
        let rec = s.ports[id];
        if rec.count - 1 == 0 {
            (s.with_ports(s.ports.remove(id)), seq![ActionView::Detach(id)])
        } else {
            (
                s.with_ports(
                    s.ports.insert(
                        id,
                        PortRecordView { host: rec.host, port: rec.port, count: (rec.count - 1) as u32 },
                    ),
                ),
                seq![],
            )
        }
    } else {
        (s, seq![])
    }
}

/// What the core does when the heartbeat timer fires at `now`: give up on a
/// server silent for longer than the alive timeout, and send a heartbeat
/// otherwise.
pub open spec fn client_tick(s: ClientCoreView, now: Timestamp) -> Seq<ActionView> {
    if millis_between(now, s.alive) > ALIVE_TIMEOUT_TIME_MS {
        seq![ActionView::Stop]
    } else {
        seq![ActionView::Write(seq![cs::HEARTBEAT])]
    }
}

/// Every step keeps every open port at one or two live halves.
pub proof fn lemma_client_step_keeps_wf(s: ClientCoreView, m: MessageView, now: Timestamp)
    requires
        s.wf(),
        now.valid(),
    ensures
        client_step(s, m, now).0.wf(),
{
    let r = client_step(s, m, now).0;
    assert forall|id: u32| #[trigger] r.ports.contains_key(id) implies 1 <= r.ports[id].count
        <= 2 by {
        if s.ports.contains_key(id) {
        }
    }
}

/// A port lives as long as one of its halves: after it is opened, dropping
/// one half keeps it open and silent, and dropping the other forgets it,
/// with a single `Detach`, leaving every other port as it was.
pub proof fn lemma_client_port_lives_until_both_halves_drop(
    s: ClientCoreView,
    id: u32,
    t1: Timestamp,
    t2: Timestamp,
    t3: Timestamp,
)
    requires
        s.wf(),
    ensures
        ({
            let (s1, a1) = client_step(s, MessageView::CSOpenPort(id), t1);
            let (s2, a2) = client_step(s1, MessageView::PortDrop(id), t2);
            let (s3, a3) = client_step(s2, MessageView::PortDrop(id), t3);
            &&& s1.ports.contains_key(id) && s1.ports[id].count == 2
            &&& s2.ports.contains_key(id) && s2.ports[id].count == 1 && a2 == Seq::<ActionView>::empty()
            &&& !s3.ports.contains_key(id)
            &&& a3 == seq![ActionView::Detach(id)]
            &&& s3.ports == s.ports.remove(id)
        }),
{
    let (s1, a1) = client_step(s, MessageView::CSOpenPort(id), t1);
    let (s2, a2) = client_step(s1, MessageView::PortDrop(id), t2);
    let (s3, a3) = client_step(s2, MessageView::PortDrop(id), t3);
    assert(s3.ports =~= s.ports.remove(id));
}

/// A port that asks to close is told so and reported to the server, and
/// stays in the table until that report is written; only then does
/// `remove_port` forget it, leaving the other ports as they were. A port
/// that the server closes is told so and forgotten at once.
pub proof fn lemma_client_close_waits_for_frame(s: ClientCoreView, id: u32, now: Timestamp)
    ensures
        client_step(s, MessageView::CSClosePort(id), now).0 == s,
        s.ports.contains_key(id) ==> client_step(s, MessageView::CSClosePort(id), now).1 == seq![
            ActionView::Notify(id, PortMessageView::ClosePort),
            ActionView::Write(id_frame(cs::CLOSE_PORT, id)),
            ActionView::Remove(id),
        ],
        !s.ports.contains_key(id) ==> client_step(s, MessageView::CSClosePort(id), now).1
            == Seq::<ActionView>::empty(),
        !s.with_ports(s.ports.remove(id)).ports.contains_key(id),
        forall|other: u32|
            other != id ==> s.with_ports(s.ports.remove(id)).ports.contains_key(other)
                == s.ports.contains_key(other),
        client_step(s, MessageView::SCClosePort(id), now).0.ports == s.ports.remove(id),
        s.ports.contains_key(id) ==> client_step(s, MessageView::SCClosePort(id), now).1 == seq![
            ActionView::Notify(id, PortMessageView::ClosePort),
            ActionView::Detach(id),
        ],
{
}

/// What the server sends about a port that is not open reaches nobody and
/// changes no port.
pub proof fn lemma_client_unknown_port_unnotified(
    s: ClientCoreView,
    id: u32,
    b: Seq<u8>,
    now: Timestamp,
)
    requires
        !s.ports.contains_key(id),
    ensures
        client_step(s, MessageView::SCClosePort(id), now).1 == Seq::<ActionView>::empty(),
        client_step(s, MessageView::SCShutdownWrite(id), now).1 == Seq::<ActionView>::empty(),
        client_step(s, MessageView::SCConnectOk(id, b), now).1 == Seq::<ActionView>::empty(),
        client_step(s, MessageView::SCData(id, b), now).1 == Seq::<ActionView>::empty(),
        client_step(s, MessageView::SCClosePort(id), now).0.ports == s.ports,
        client_step(s, MessageView::SCData(id, b), now).0.ports == s.ports,
{
    assert(s.ports.remove(id) =~= s.ports);
}

/// Anything the server sends is a sign of life: a tick up to the alive
/// timeout later sends a heartbeat instead of giving up.
pub proof fn lemma_server_frame_keeps_client_alive(
    s: ClientCoreView,
    m: MessageView,
    now: Timestamp,
    later: Timestamp,
)
    requires
        m is SCHeartbeat || m is SCClosePort || m is SCShutdownWrite || m is SCConnectOk
            || m is SCData,
        millis_between(later, now) <= ALIVE_TIMEOUT_TIME_MS,
    ensures
        client_step(s, m, now).0.alive == now,
        client_tick(client_step(s, m, now).0, later) == seq![
            ActionView::Write(seq![cs::HEARTBEAT]),
        ],
{
}

/// What the server sends for an open port reaches that port intact: the
/// connect report hands the port exactly the address text the server sent,
/// relayed bytes are handed over exactly as they came, and the end of the
/// remote host's stream is passed on; in each case that one message is all
/// the core does, and no port is opened or forgotten.
pub proof fn lemma_client_routes_server_frames_unchanged(
    s: ClientCoreView,
    id: u32,
    b: Seq<u8>,
    now: Timestamp,
)
    requires
        s.ports.contains_key(id),
    ensures
        client_step(s, MessageView::SCConnectOk(id, b), now).1 == seq![
            ActionView::Notify(id, PortMessageView::ConnectOk(b)),
        ],
        client_step(s, MessageView::SCData(id, b), now).1 == seq![
            ActionView::Notify(id, PortMessageView::Data(b)),
        ],
        client_step(s, MessageView::SCShutdownWrite(id), now).1 == seq![
            ActionView::Notify(id, PortMessageView::ShutdownWrite),
        ],
        client_step(s, MessageView::SCConnectOk(id, b), now).0.ports == s.ports,
        client_step(s, MessageView::SCData(id, b), now).0.ports == s.ports,
        client_step(s, MessageView::SCShutdownWrite(id), now).0.ports == s.ports,
{
}

/// Only the server's frames are signs of its life: what the ports ask of
/// the core leaves the time the server was last heard from as it was, so a
/// server that stays silent past the alive timeout is given up on at the
/// next tick, however busy the browser is.
pub proof fn lemma_port_requests_leave_liveness(
    s: ClientCoreView,
    m: MessageView,
    now: Timestamp,
    later: Timestamp,
)
    requires
        m is CSOpenPort || m is CSConnect || m is CSConnectDN || m is CSShutdownWrite
            || m is CSData || m is CSClosePort || m is PortDrop,
    ensures
        client_step(s, m, now).0.alive == s.alive,
        millis_between(later, s.alive) > ALIVE_TIMEOUT_TIME_MS ==> client_tick(
            client_step(s, m, now).0,
            later,
        ) == seq![ActionView::Stop],
{
}

/// The decision procedure of a client tunnel core.
pub struct ClientCore {
    tid: u32,
    ports: HashMap<u32, PortRecord>,
    alive: Timestamp,
}

impl View for ClientCore {
    type V = ClientCoreView;

    closed spec fn view(&self) -> ClientCoreView {
        ClientCoreView {
            tid: self.tid,
            ports: self.ports@.map_values(|r: PortRecord| r@),
            alive: self.alive,
        }
    }
}

impl ClientCore {
    /// A core with no open ports that last heard from the server at `now`.
    pub fn new(tid: u32, now: Timestamp) -> (c: ClientCore)
        requires
            now.valid(),
        ensures
            c@.ports == Map::<u32, PortRecordView>::empty(),
            c@.alive == now,
            c@.wf(),
            c@.tid == tid,
    {
        let c = ClientCore { tid, ports: HashMap::new(), alive: now };
        assert(c@.ports =~= Map::<u32, PortRecordView>::empty());
        c
    }

    /// A core with no open ports, started now by the wall clock.
    pub fn start(tid: u32) -> (c: ClientCore)
        ensures
            c@.ports == Map::<u32, PortRecordView>::empty(),
            c@.wf(),
            c@.tid == tid,
    {
        let now = clock_now();
        ClientCore::new(tid, now)
    }

    /// The tunnel number.
    pub fn tid(&self) -> (r: u32)
        ensures
            r == self@.tid,
    {
        self.tid
    }

    /// Whether the port with this id is open.
    pub fn is_open(&self, id: u32) -> (r: bool)
        ensures
            r == self@.ports.contains_key(id),
    {
        self.ports.contains_key(&id)
    }

    /// The host and port that the open port `id` was asked to reach by
    /// name, for reports.
    pub fn port_host(&self, id: u32) -> (r: Option<(Vec<u8>, u16)>)
        ensures
            match r {
                Some((h, p)) => self@.ports.contains_key(id) && h@ == self@.ports[id].host && p
                    == self@.ports[id].port,
                None => !self@.ports.contains_key(id),
            },
    {
        match self.ports.get(&id) {
            Some(rec) => {
                let h = copy_range(rec.host.as_slice(), 0, rec.host.len());
                assert(h@ =~= rec.host@);
                Some((h, rec.port))
            },
            None => None,
        }
    }

    /// The ids of all open ports, each once, in no particular order.
    pub fn open_ports(&self) -> (r: Vec<u32>)
        ensures
            r@.to_set() == self@.ports.dom(),
            r@.no_duplicates(),
    {
        let mut r: Vec<u32> = Vec::new();
        let ghost all = self.ports.keys().remaining().unref();
        for k in it: self.ports.keys()
            invariant
                it.seq().unref() == all,
                all.to_set() == self.ports@.dom(),
                all.no_duplicates(),
                r@ == all.take(it.index()),
        {
            r.push(*k);
            proof {
                assert(r@ =~= all.take(it.index() + 1));
            }
        }
        proof {
            assert(r@ =~= all);
            assert(self@.ports.dom() =~= self.ports@.dom());
        }
        r
    }

    /// Reacts to one message, as `client_step` says, at time `now`.
    pub fn on_message(&mut self, msg: Message, now: Timestamp) -> (acts: Vec<Action>)
        requires
            old(self)@.wf(),
            now.valid(),
            message_fits(msg@),
        ensures
            final(self)@.wf(),
            (final(self)@, actions_view(acts@)) == client_step(old(self)@, msg@, now),
    {
        let ghost s = self@;
        let ghost mv = msg@;
        let mut acts: Vec<Action> = Vec::new();
        match msg {
            Message::CSOpenPort(id) => {
                self.ports.insert(id, PortRecord { host: Vec::new(), port: 0, count: 2 });
                acts.push(Action::Attach(id));
                acts.push(Action::Write(encode_id_frame(cs::OPEN_PORT, id)));
                proof {
                    assert(self@.ports =~= s.ports.insert(id, fresh_record()));
                }
            },
            Message::CSConnect(id, buf) => {
                acts.push(Action::Write(encode_payload_frame(cs::CONNECT, id, buf.as_slice())));
            },
            Message::CSConnectDN(id, buf, port) => {
                let frame = encode_domain_frame(id, buf.as_slice(), port);
                match self.ports.remove(&id) {
                    Some(rec) => {
                        let host = text_or_empty(buf.as_slice());
                        self.ports.insert(id, PortRecord { host, port, count: rec.count });
                        proof {
                            assert(self@.ports =~= s.ports.insert(
                                id,
                                PortRecordView {
                                    host: utf8_or_empty(buf@),
                                    port: port,
                                    count: s.ports[id].count,
                                },
                            ));
                        }
                    },
                    None => {
                        proof {
                            assert(self@.ports =~= s.ports);
                        }
                    },
                }
                acts.push(Action::Write(frame));
            },
            Message::CSShutdownWrite(id) => {
                acts.push(Action::Write(encode_id_frame(cs::SHUTDOWN_WRITE, id)));
            },
            Message::CSData(id, buf) => {
                acts.push(Action::Write(encode_payload_frame(cs::DATA, id, buf.as_slice())));
            },
            Message::CSClosePort(id) => {
                if self.ports.contains_key(&id) {
                    acts.push(Action::Notify(id, PortMessage::ClosePort));
                    acts.push(Action::Write(encode_id_frame(cs::CLOSE_PORT, id)));
                    acts.push(Action::Remove(id));
                }
            },
            Message::SCHeartbeat => {
                self.alive = now;
            },
            Message::SCClosePort(id) => {
                self.alive = now;
                if self.ports.contains_key(&id) {
                    acts.push(Action::Notify(id, PortMessage::ClosePort));
                    acts.push(Action::Detach(id));
                }
                self.ports.remove(&id);
                proof {
                    assert(self@.ports =~= s.ports.remove(id));
                }
            },
            Message::SCShutdownWrite(id) => {
                self.alive = now;
                if self.ports.contains_key(&id) {
                    acts.push(Action::Notify(id, PortMessage::ShutdownWrite));
                }
            },
            Message::SCConnectOk(id, buf) => {
                self.alive = now;
                if self.ports.contains_key(&id) {
                    acts.push(Action::Notify(id, PortMessage::ConnectOk(buf)));
                }
            },
            Message::SCData(id, buf) => {
                self.alive = now;
                if self.ports.contains_key(&id) {
                    acts.push(Action::Notify(id, PortMessage::Data(buf)));
                }
            },
            Message::PortDrop(id) => {
                match self.ports.remove(&id) {
                    Some(rec) => {
                        assert(s.ports.contains_key(id));
                        let count = rec.count - 1;
                        if count == 0 {
                            acts.push(Action::Detach(id));
                            proof {
                                assert(self@.ports =~= s.ports.remove(id));
                            }
                        } else {
                            self.ports.insert(
                                id,
                                PortRecord { host: rec.host, port: rec.port, count },
                            );
                            proof {
                                assert(self@.ports =~= s.ports.insert(
                                    id,
                                    PortRecordView {
                                        host: s.ports[id].host,
                                        port: s.ports[id].port,
                                        count: count,
                                    },
                                ));
                            }
                        }
                    },
                    None => {
                        proof {
                            assert(self@.ports =~= s.ports);
                        }
                    },
                }
            },
        }
        proof {
            let expected = client_step(s, mv, now);
            assert(actions_view(acts@) =~= expected.1);
            assert(self@ == expected.0);
        }
        acts
    }

    /// Reacts to a tick of the heartbeat timer, as `client_tick` says, at
    /// time `now`.
    pub fn on_tick(&self, now: Timestamp) -> (acts: Vec<Action>)
        requires
            self@.wf(),
            now.valid(),
            now.span_fits(self@.alive),
        ensures
            actions_view(acts@) == client_tick(self@, now),
    {
        let mut acts: Vec<Action> = Vec::new();
        if elapsed_millis(now, self.alive) > ALIVE_TIMEOUT_TIME_MS {
            acts.push(Action::Stop);
        } else {
            let mut beat = Vec::new();
            beat.push(cs::HEARTBEAT);
            acts.push(Action::Write(beat));
        }
        assert(actions_view(acts@) =~= client_tick(self@, now));
        acts
    }

    /// Reacts to a tick of the heartbeat timer read at `now`: as
    /// `client_tick` says when the time since the last sign of life can be
    /// measured, and `None` exactly when it cannot.
    pub fn tick_at(&self, now: Timestamp) -> (r: Option<Vec<Action>>)
        requires
            self@.wf(),
            now.valid(),
        ensures
            match r {
                Some(a) => now.span_fits(self@.alive) && actions_view(a@) == client_tick(self@, now),
                None => !now.span_fits(self@.alive),
            },
    {
        if now.span_fits_exec(&self.alive) {
            Some(self.on_tick(now))
        } else {
            None
        }
    }

    /// Forgets port `id` once its close frame has been written.
    pub fn remove_port(&mut self, id: u32)
        requires
            old(self)@.wf(),
        ensures
            final(self)@ == old(self)@.with_ports(old(self)@.ports.remove(id)),
            final(self)@.wf(),
    {
        let ghost s = self@;
        self.ports.remove(&id);
        proof {
            assert(self@.ports =~= s.ports.remove(id));
        }
    }

    /// Reads the wall clock and reacts to a message (`Some`) or to a tick
    /// of the heartbeat timer (`None`). A tick whose reading lies too far
    /// from the last sign of life to be measured changes nothing and gives
    /// `None`.
    pub fn handle(&mut self, input: Option<Message>) -> (r: Option<Vec<Action>>)
        requires
            old(self)@.wf(),
            match input {
                Some(m) => message_fits(m@),
                None => true,
            },
        ensures
            final(self)@.wf(),
            match input {
                Some(m) => r is Some && exists|t: Timestamp|
                    t.valid() && (final(self)@, actions_view(r.unwrap()@)) == #[trigger] client_step(
                        old(self)@,
                        m@,
                        t,
                    ),
                None => final(self)@ == old(self)@ && exists|t: Timestamp|
                    t.valid() && match r {
                        Some(a) => t.span_fits(old(self)@.alive) && actions_view(a@)
                            == #[trigger] client_tick(old(self)@, t),
                        None => !t.span_fits(old(self)@.alive),
                    },
            },
    {
        let now = clock_now();
        match input {
            Some(m) => Some(self.on_message(m, now)),
            None => {
                let r = self.tick_at(now);
                proof {
                    let _ = client_tick(self@, now);
                }
                r
            },
        }
    }
}

/// What reading a frame from the start of the server's byte stream gives.
#[derive(Debug)]
pub enum Received {
    /// A frame of this many bytes carrying this message.
    Frame(usize, Message),
    /// The bytes end inside a frame.
    NeedMore,
    /// A frame with an unknown operation code: the tunnel stops reading.
    Stop,
}

/// The mathematical form of `Received`.
pub enum ReceivedView {
    Frame(int, MessageView),
    NeedMore,
    Stop,
}

impl View for Received {
    type V = ReceivedView;

    open spec fn view(&self) -> ReceivedView {
        match self {
            Received::Frame(n, m) => ReceivedView::Frame(*n as int, m@),
            Received::NeedMore => ReceivedView::NeedMore,
            Received::Stop => ReceivedView::Stop,
        }
    }
}

/// The frame at the start of the server's byte stream `s`. A heartbeat
/// answer is one byte; every other frame carries a port id, and data and
/// connect reports carry a length-prefixed payload. An unknown operation
/// code stops the reader once its port id has arrived.
pub open spec fn sc_decode(s: Seq<u8>) -> ReceivedView {
    if s.len() < 1 {
        ReceivedView::NeedMore
    } else if s[0] == sc::HEARTBEAT_RSP {
        ReceivedView::Frame(1, MessageView::SCHeartbeat)
    } else if s.len() < 5 {
        ReceivedView::NeedMore
    } else if s[0] == sc::CLOSE_PORT {
        ReceivedView::Frame(5, MessageView::SCClosePort(be32_at(s, 1)))
    } else if s[0] == sc::SHUTDOWN_WRITE {
        ReceivedView::Frame(5, MessageView::SCShutdownWrite(be32_at(s, 1)))
    } else if s[0] == sc::CONNECT_OK || s[0] == sc::DATA {
        if s.len() < 9 || s.len() < 9 + be32_at(s, 5) {
            ReceivedView::NeedMore
        } else {
            let id = be32_at(s, 1);
            let payload = s.subrange(9, 9 + be32_at(s, 5));
            ReceivedView::Frame(
                9 + be32_at(s, 5),
                if s[0] == sc::CONNECT_OK {
                    MessageView::SCConnectOk(id, payload)
                } else {
                    MessageView::SCData(id, payload)
                },
            )
        }
    } else {
        ReceivedView::Stop
    }
}

/// Reads the frame at the start of `buf`, the bytes received from the
/// server and not yet consumed.
pub fn next_message(buf: &[u8]) -> (r: Received)
    ensures
        r@ == sc_decode(buf@),
{
    if buf.len() < 1 {
        return Received::NeedMore;
    }
    let op = buf[0];
    if op == sc::HEARTBEAT_RSP {
        return Received::Frame(1, Message::SCHeartbeat);
    }
    if buf.len() < 5 {
        return Received::NeedMore;
    }
    let id = read_be32(buf, 1);
    if op == sc::CLOSE_PORT {
        Received::Frame(5, Message::SCClosePort(id))
    } else if op == sc::SHUTDOWN_WRITE {
        Received::Frame(5, Message::SCShutdownWrite(id))
    } else if op == sc::CONNECT_OK || op == sc::DATA {
        if buf.len() < 9 {
            return Received::NeedMore;
        }
        let len = read_be32(buf, 5) as usize;
        if buf.len() - 9 < len {
            return Received::NeedMore;
        }
        let payload = copy_range(buf, 9, 9 + len);
        if op == sc::CONNECT_OK {
            Received::Frame(9 + len, Message::SCConnectOk(id, payload))
        } else {
            Received::Frame(9 + len, Message::SCData(id, payload))
        }
    } else {
        Received::Stop
    }
}

} // verus!
