use simple_proxy::clock::Timestamp;
use simple_proxy::client::{
    Tunnel, Message, PortMessage, Action, ClientCore, LocalStep, Received, next_message,
    reply_start, ReplyStart, remote_step, next_tunnel_index,
};
use simple_proxy::socks5::{ConnectInfo, TcpError, V4Addr};
use simple_proxy::stream::{Shutdown, RemoteStep};

fn at(sec: i64, nsec: i32) -> Timestamp {
    Timestamp { sec, nsec }
}

#[test]
fn open_port_hands_out_consecutive_ids() {
    let mut t = Tunnel::new();
    let (w1, r1) = t.open_port();
    let (w2, r2) = t.open_port();
    assert_eq!(w1.port_id(), 1);
    assert_eq!(r1.port_id(), 1);
    assert_eq!(w2.port_id(), 2);
    assert_eq!(r2.port_id(), 2);
}

#[test]
fn write_port_messages_carry_the_port_id() {
    let mut t = Tunnel::new();
    let (w, _r) = t.open_port();
    assert!(matches!(w.write(vec![1, 2]), Message::CSData(1, ref b) if *b == vec![1, 2]));
    assert!(matches!(w.connect(b"1.2.3.4:80".to_vec()), Message::CSConnect(1, _)));
    assert!(matches!(w.connect_domain_name(b"x.org".to_vec(), 2020),
        Message::CSConnectDN(1, ref b, 2020) if *b == b"x.org".to_vec()));
    assert!(matches!(w.shutdown_write(), Message::CSShutdownWrite(1)));
    assert!(matches!(w.close(), Message::CSClosePort(1)));
    assert!(matches!(w.dropped(), Message::PortDrop(1)));
    assert!(matches!(w.open(), Message::CSOpenPort(1)));
}

#[test]
fn read_port_reads_closed_channel_as_close() {
    let mut t = Tunnel::new();
    let (_w, r) = t.open_port();
    assert!(matches!(r.read(None), PortMessage::ClosePort));
    assert!(matches!(r.read(Some(PortMessage::Data(vec![3]))), PortMessage::Data(ref b) if *b == vec![3]));
    assert!(matches!(r.dropped(), Message::PortDrop(1)));
}

#[test]
fn request_from_handshake() {
    let mut t = Tunnel::new();
    let (w, _r) = t.open_port();
    let addr = V4Addr { a: 8, b: 8, c: 4, d: 4, port: 53 };
    match w.request(Ok(ConnectInfo::Addr(addr))) {
        (Message::CSConnect(1, text), true) => assert_eq!(text, b"8.8.4.4:53".to_vec()),
        _ => panic!("expected a connect request"),
    }
    assert!(matches!(w.request(Ok(ConnectInfo::Domain(b"a.b".to_vec(), 443))),
        (Message::CSConnectDN(1, _, 443), true)));
    assert!(matches!(w.request(Ok(ConnectInfo::Unknown)), (Message::CSClosePort(1), false)));
    assert!(matches!(w.request(Err(TcpError::ErrorData)), (Message::CSClosePort(1), false)));
}

#[test]
fn local_reads() {
    let mut t = Tunnel::new();
    let (w, _r) = t.open_port();
    assert!(matches!(w.on_local_read(Ok(vec![7])), LocalStep::Forward(Message::CSData(1, _))));
    assert!(matches!(w.on_local_read(Err(TcpError::Eof)),
        LocalStep::Finish(Shutdown::Read, Message::CSShutdownWrite(1))));
    assert!(matches!(w.on_local_read(Err(TcpError::ErrorData)),
        LocalStep::Finish(Shutdown::Both, Message::CSClosePort(1))));
}

#[test]
fn remote_side_steps() {
    assert!(matches!(reply_start(PortMessage::ConnectOk(b"1.1.1.1:9".to_vec())),
        ReplyStart::Reply(ref r) if *r == vec![5, 0, 0, 1, 1, 1, 1, 1, 0, 9]));
    assert!(matches!(reply_start(PortMessage::ConnectOk(b"[::1]:80".to_vec())),
        ReplyStart::Resolve(ref t) if *t == b"[::1]:80".to_vec()));
    assert!(matches!(reply_start(PortMessage::ConnectOk(b"01.1.1.1:9".to_vec())), ReplyStart::Resolve(_)));
    assert!(matches!(reply_start(PortMessage::ClosePort), ReplyStart::Shutdown));
    assert!(matches!(reply_start(PortMessage::Data(vec![1])), ReplyStart::Shutdown));
    assert!(matches!(remote_step(PortMessage::Data(vec![1])), RemoteStep::Write(ref b) if *b == vec![1]));
    assert!(matches!(remote_step(PortMessage::ShutdownWrite), RemoteStep::Finish(Shutdown::Write)));
    assert!(matches!(remote_step(PortMessage::ClosePort), RemoteStep::Finish(Shutdown::Both)));
    assert!(matches!(remote_step(PortMessage::ConnectOk(vec![])), RemoteStep::Finish(Shutdown::Both)));
}

#[test]
fn core_open_writes_frame_and_attaches() {
    let mut c = ClientCore::new(0, at(100, 0));
    let acts = c.on_message(Message::CSOpenPort(9), at(100, 0));
    assert_eq!(acts.len(), 2);
    assert!(matches!(acts[0], Action::Attach(9)));
    assert!(matches!(acts[1], Action::Write(ref b) if *b == vec![1, 0, 0, 0, 9]));
    assert!(c.is_open(9));
    assert_eq!(c.open_ports(), vec![9]);
}

#[test]
fn core_port_lives_until_both_halves_drop() {
    let now = at(100, 0);
    let mut c = ClientCore::new(0, now);
    c.on_message(Message::CSOpenPort(4), now);
    let a = c.on_message(Message::PortDrop(4), now);
    assert!(a.is_empty());
    assert!(c.is_open(4));
    let a = c.on_message(Message::PortDrop(4), now);
    assert_eq!(a.len(), 1);
    assert!(matches!(a[0], Action::Detach(4)));
    assert!(!c.is_open(4));
    let a = c.on_message(Message::PortDrop(4), now);
    assert!(a.is_empty());
}

#[test]
fn core_close_notifies_writes_and_forgets() {
    let now = at(100, 0);
    let mut c = ClientCore::new(0, now);
    c.on_message(Message::CSOpenPort(3), now);
    let a = c.on_message(Message::CSClosePort(3), now);
    assert_eq!(a.len(), 3);
    assert!(matches!(a[0], Action::Notify(3, PortMessage::ClosePort)));
    assert!(matches!(a[1], Action::Write(ref b) if *b == vec![2, 0, 0, 0, 3]));
    assert!(matches!(a[2], Action::Remove(3)));
    assert!(c.is_open(3));
    assert_eq!(c.open_ports(), vec![3]);
    c.remove_port(3);
    assert!(!c.is_open(3));
    let a = c.on_message(Message::CSClosePort(3), now);
    assert!(a.is_empty());
}

#[test]
fn core_domain_records_host() {
    let now = at(100, 0);
    let mut c = ClientCore::new(0, now);
    c.on_message(Message::CSOpenPort(1), now);
    assert_eq!(c.port_host(1), Some((vec![], 0)));
    let a = c.on_message(Message::CSConnectDN(1, b"ex.com".to_vec(), 443), now);
    assert!(matches!(a[0], Action::Write(ref b)
        if *b == vec![6, 0, 0, 0, 1, 0, 0, 0, 8, b'e', b'x', b'.', b'c', b'o', b'm', 1, 0xbb]));
    assert_eq!(c.port_host(1), Some((b"ex.com".to_vec(), 443)));
    c.on_message(Message::CSConnectDN(1, vec![0xff, 0xfe], 80), now);
    assert_eq!(c.port_host(1), Some((vec![], 80)));
    assert_eq!(c.port_host(2), None);
}

#[test]
fn core_routes_server_messages_to_open_ports_only() {
    let now = at(100, 0);
    let mut c = ClientCore::new(0, now);
    c.on_message(Message::CSOpenPort(1), now);
    let a = c.on_message(Message::SCData(1, vec![5, 6]), now);
    assert!(matches!(a[0], Action::Notify(1, PortMessage::Data(ref b)) if *b == vec![5, 6]));
    let a = c.on_message(Message::SCConnectOk(1, b"x".to_vec()), now);
    assert!(matches!(a[0], Action::Notify(1, PortMessage::ConnectOk(_))));
    let a = c.on_message(Message::SCShutdownWrite(1), now);
    assert!(matches!(a[0], Action::Notify(1, PortMessage::ShutdownWrite)));
    let a = c.on_message(Message::SCData(2, vec![5, 6]), now);
    assert!(a.is_empty());
    let a = c.on_message(Message::SCClosePort(1), now);
    assert_eq!(a.len(), 2);
    assert!(matches!(a[0], Action::Notify(1, PortMessage::ClosePort)));
    assert!(matches!(a[1], Action::Detach(1)));
    assert!(!c.is_open(1));
}

#[test]
fn core_data_and_connect_frames() {
    let now = at(100, 0);
    let mut c = ClientCore::new(0, now);
    let a = c.on_message(Message::CSData(2, vec![9, 9]), now);
    assert!(matches!(a[0], Action::Write(ref b) if *b == vec![7, 0, 0, 0, 2, 0, 0, 0, 2, 9, 9]));
    let a = c.on_message(Message::CSConnect(2, b"1.2.3.4:5".to_vec()), now);
    assert!(matches!(a[0], Action::Write(ref b) if b[0] == 5 && b.len() == 18));
    let a = c.on_message(Message::CSShutdownWrite(2), now);
    assert!(matches!(a[0], Action::Write(ref b) if *b == vec![4, 0, 0, 0, 2]));
}

#[test]
fn core_tick_sends_heartbeat_while_alive() {
    let c = ClientCore::new(0, at(10, 999_000_000));
    let a = c.on_tick(at(70, 998_000_000));
    assert_eq!(a.len(), 1);
    assert!(matches!(a[0], Action::Write(ref b) if *b == vec![8]));
    let a = c.on_tick(at(70, 999_000_000));
    assert!(matches!(a[0], Action::Write(_)));
}

#[test]
fn core_tick_stops_after_timeout() {
    let c = ClientCore::new(0, at(10, 999_000_000));
    let a = c.on_tick(at(71, 0));
    assert_eq!(a.len(), 1);
    assert!(matches!(a[0], Action::Stop));
    let a = c.on_tick(at(70, 999_000_001));
    assert!(matches!(a[0], Action::Write(_)));
    let a = c.on_tick(at(71, 0));
    assert!(matches!(a[0], Action::Stop));
}

#[test]
fn core_server_heartbeat_refreshes_liveness() {
    let mut c = ClientCore::new(0, at(0, 0));
    c.on_message(Message::SCHeartbeat, at(50, 0));
    let a = c.on_tick(at(100, 0));
    assert!(matches!(a[0], Action::Write(_)));
    let a = c.on_tick(at(111, 0));
    assert!(matches!(a[0], Action::Stop));
}

#[test]
fn client_core_handle_reads_clock() {
    let mut c = ClientCore::start(3);
    assert_eq!(c.tid(), 3);
    let a = c.handle(Some(Message::CSOpenPort(1))).unwrap();
    assert_eq!(a.len(), 2);
    let a = c.handle(None).unwrap();
    assert!(matches!(a[0], Action::Write(ref b) if *b == vec![8]));
}

#[test]
fn decode_server_frames() {
    assert!(matches!(next_message(&[6, 1]), Received::Frame(1, Message::SCHeartbeat)));
    assert!(matches!(next_message(&[1, 0, 0, 1, 0]), Received::Frame(5, Message::SCClosePort(256))));
    assert!(matches!(next_message(&[3, 0, 0, 0, 7]), Received::Frame(5, Message::SCShutdownWrite(7))));
    match next_message(&[5, 0, 0, 0, 7, 0, 0, 0, 2, 0xa, 0xb, 0xc]) {
        Received::Frame(11, Message::SCData(7, b)) => assert_eq!(b, vec![0xa, 0xb]),
        _ => panic!("expected data"),
    }
    match next_message(&[4, 0, 0, 0, 7, 0, 0, 0, 1, b'z']) {
        Received::Frame(10, Message::SCConnectOk(7, b)) => assert_eq!(b, b"z".to_vec()),
        _ => panic!("expected connect ok"),
    }
}

#[test]
fn decode_waits_for_whole_frame() {
    assert!(matches!(next_message(&[]), Received::NeedMore));
    assert!(matches!(next_message(&[1, 0, 0]), Received::NeedMore));
    assert!(matches!(next_message(&[5, 0, 0, 0, 7, 0, 0]), Received::NeedMore));
    assert!(matches!(next_message(&[5, 0, 0, 0, 7, 0, 0, 0, 3, 1, 2]), Received::NeedMore));
}

#[test]
fn decode_unknown_operation_stops() {
    assert!(matches!(next_message(&[9, 0, 0, 0, 1]), Received::Stop));
    assert!(matches!(next_message(&[9, 0, 0]), Received::NeedMore));
}

#[test]
fn message_fits() {
    assert!(Message::CSConnectDN(1, vec![1; 10], 1).fits());
    assert!(Message::SCHeartbeat.fits());
}

#[test]
fn tunnels_take_connections_in_turn() {
    assert_eq!(next_tunnel_index(0, 3), 1);
    assert_eq!(next_tunnel_index(1, 3), 2);
    assert_eq!(next_tunnel_index(2, 3), 0);
    assert_eq!(next_tunnel_index(0, 1), 0);
}

#[test]
fn core_close_frame_unwritten_keeps_port() {
    let now = at(100, 0);
    let mut c = ClientCore::new(0, now);
    c.on_message(Message::CSOpenPort(6), now);
    c.on_message(Message::CSOpenPort(7), now);
    let a = c.on_message(Message::CSClosePort(6), now);
    assert!(matches!(a[1], Action::Write(_)));
    let mut open = c.open_ports();
    open.sort();
    assert_eq!(open, vec![6, 7]);
}

#[test]
fn core_tick_at_edge_of_measurable_span() {
    let c = ClientCore::new(0, at(0, 0));
    assert!(c.tick_at(at(9_223_372_036_854_775, 0)).is_some());
    assert!(c.tick_at(at(9_223_372_036_854_775, 807_000_000)).is_some());
    assert!(c.tick_at(at(9_223_372_036_854_775, 808_000_000)).is_none());
    assert!(c.tick_at(at(9_223_372_036_854_776, 0)).is_none());
    let a = c.tick_at(at(9_223_372_036_854_775, 0)).unwrap();
    assert!(matches!(a[0], Action::Stop));
    let c = ClientCore::new(0, at(9_223_372_036_854_775, 0));
    assert!(c.tick_at(at(0, 0)).is_some());
    assert!(c.tick_at(at(-1, 0)).is_none());
}

#[test]
fn span_fits_matches_time_crate_domain() {
    assert!(at(9_223_372_036_854_775, 807_999_999).span_fits_exec(&at(0, 0)));
    assert!(!at(9_223_372_036_854_775, 808_000_000).span_fits_exec(&at(0, 0)));
    assert!(at(0, 0).span_fits_exec(&at(9_223_372_036_854_775, 808_999_999)));
    assert!(!at(0, 0).span_fits_exec(&at(9_223_372_036_854_775, 809_000_000)));
    assert!(at(i64::MAX, 0).span_fits_exec(&at(i64::MAX, 5)));
    assert!(!at(i64::MAX, 0).span_fits_exec(&at(i64::MIN, 0)));
}
