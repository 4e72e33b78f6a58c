use simple_proxy::clock::Timestamp;
use simple_proxy::protocol::cs;
use simple_proxy::server::{
    Message, PortMessage, Action, ServerCore, LocalStep, Received, Target, TunnelWritePort,
    TunnelReadPort, BoundAddr, dial_order, next_message, length_underflows, port_target, remote_step,
};
use simple_proxy::socks5::{TcpError, V4Addr};
use simple_proxy::stream::{Shutdown, RemoteStep};

fn at(sec: i64, nsec: i32) -> Timestamp {
    Timestamp { sec, nsec }
}

#[test]
fn write_port_messages() {
    let w = TunnelWritePort::new(12);
    assert_eq!(w.port_id(), 12);
    assert!(matches!(w.connect_ok(b"1.2.3.4:5".to_vec()), Message::SCConnectOk(12, _)));
    assert!(matches!(w.write(vec![1]), Message::SCData(12, ref b) if *b == vec![1]));
    assert!(matches!(w.shutdown_write(), Message::SCShutdownWrite(12)));
    assert!(matches!(w.close(), Message::SCClosePort(12)));
    assert!(matches!(w.dropped(), Message::PortDrop(12)));
    assert!(matches!(w.on_local_read(Ok(vec![2])), LocalStep::Forward(Message::SCData(12, _))));
    assert!(matches!(w.on_local_read(Err(TcpError::Eof)),
        LocalStep::Finish(Shutdown::Read, Message::SCShutdownWrite(12))));
    assert!(matches!(w.on_local_read(Err(TcpError::ErrorData)),
        LocalStep::Finish(Shutdown::Both, Message::SCClosePort(12))));
}

#[test]
fn read_port_messages() {
    let r = TunnelReadPort::new(3);
    assert_eq!(r.port_id(), 3);
    assert!(matches!(r.read(Some(PortMessage::ShutdownWrite)), PortMessage::ShutdownWrite));
    assert!(matches!(r.dropped(), Message::PortDrop(3)));
}

#[test]
fn first_message_targets() {
    assert!(matches!(port_target(PortMessage::Data(cs::CONNECT, b"1.2.3.4:80".to_vec())),
        Target::Addr(ref a) if *a == b"1.2.3.4:80".to_vec()));
    assert!(matches!(port_target(PortMessage::ConnectDN(b"a.b".to_vec(), 443)),
        Target::Domain(_, 443)));
    assert!(matches!(port_target(PortMessage::Data(cs::DATA, vec![1])), Target::Nothing));
    assert!(matches!(port_target(PortMessage::ClosePort), Target::Nothing));
}

#[test]
fn later_message_steps() {
    assert!(matches!(remote_step(PortMessage::Data(cs::DATA, vec![4])), RemoteStep::Write(_)));
    assert!(matches!(remote_step(PortMessage::Data(cs::CONNECT, vec![4])),
        RemoteStep::Finish(Shutdown::Both)));
    assert!(matches!(remote_step(PortMessage::ShutdownWrite), RemoteStep::Finish(Shutdown::Write)));
    assert!(matches!(remote_step(PortMessage::ClosePort), RemoteStep::Finish(Shutdown::Both)));
}

#[test]
fn core_heartbeat_is_answered() {
    let mut c = ServerCore::new(at(5, 0));
    let a = c.on_message(Message::CSHeartbeat, at(6, 0));
    assert_eq!(a.len(), 1);
    assert!(matches!(a[0], Action::Write(ref b) if *b == vec![6]));
}

#[test]
fn core_port_lifecycle() {
    let now = at(5, 0);
    let mut c = ServerCore::new(now);
    let a = c.on_message(Message::CSOpenPort(8), now);
    assert_eq!(a.len(), 1);
    assert!(matches!(a[0], Action::Attach(8)));
    assert!(c.is_open(8));
    assert!(c.on_message(Message::PortDrop(8), now).is_empty());
    assert!(c.is_open(8));
    let a = c.on_message(Message::PortDrop(8), now);
    assert!(matches!(a[0], Action::Detach(8)));
    assert!(!c.is_open(8));
    assert!(c.open_ports().is_empty());
}

#[test]
fn core_routes_client_requests() {
    let now = at(5, 0);
    let mut c = ServerCore::new(now);
    c.on_message(Message::CSOpenPort(1), now);
    let a = c.on_message(Message::CSData(cs::CONNECT, 1, b"h:1".to_vec()), now);
    assert!(matches!(a[0], Action::Notify(1, PortMessage::Data(5, _))));
    let a = c.on_message(Message::CSConnectDN(1, b"h".to_vec(), 7), now);
    assert!(matches!(a[0], Action::Notify(1, PortMessage::ConnectDN(_, 7))));
    let a = c.on_message(Message::CSShutdownWrite(1), now);
    assert!(matches!(a[0], Action::Notify(1, PortMessage::ShutdownWrite)));
    assert!(c.on_message(Message::CSData(cs::DATA, 2, vec![1]), now).is_empty());
    let a = c.on_message(Message::CSClosePort(1), now);
    assert_eq!(a.len(), 2);
    assert!(matches!(a[0], Action::Notify(1, PortMessage::ClosePort)));
    assert!(!c.is_open(1));
}

#[test]
fn core_port_reports_become_frames() {
    let now = at(5, 0);
    let mut c = ServerCore::new(now);
    c.on_message(Message::CSOpenPort(1), now);
    let a = c.on_message(Message::SCConnectOk(1, b"ab".to_vec()), now);
    assert!(matches!(a[0], Action::Write(ref b) if *b == vec![4, 0, 0, 0, 1, 0, 0, 0, 2, b'a', b'b']));
    let a = c.on_message(Message::SCData(1, vec![3]), now);
    assert!(matches!(a[0], Action::Write(ref b) if *b == vec![5, 0, 0, 0, 1, 0, 0, 0, 1, 3]));
    let a = c.on_message(Message::SCShutdownWrite(1), now);
    assert!(matches!(a[0], Action::Write(ref b) if *b == vec![3, 0, 0, 0, 1]));
    let a = c.on_message(Message::SCClosePort(1), now);
    assert_eq!(a.len(), 3);
    assert!(matches!(a[0], Action::Notify(1, PortMessage::ClosePort)));
    assert!(matches!(a[1], Action::Write(ref b) if *b == vec![1, 0, 0, 0, 1]));
    assert!(matches!(a[2], Action::Remove(1)));
    assert!(c.is_open(1));
    c.remove_port(1);
    assert!(!c.is_open(1));
    assert!(c.on_message(Message::SCClosePort(1), now).is_empty());
}

#[test]
fn core_close_tunnel_stops() {
    let mut c = ServerCore::new(at(5, 0));
    let a = c.on_message(Message::CloseTunnel, at(5, 0));
    assert!(matches!(a[0], Action::Stop));
}

#[test]
fn core_tick_times_out() {
    let mut c = ServerCore::new(at(0, 500_000_000));
    assert!(c.on_tick(at(60, 500_000_000)).is_empty());
    let a = c.on_tick(at(60, 501_000_000));
    assert!(matches!(a[0], Action::Stop));
    c.on_message(Message::CSHeartbeat, at(30, 0));
    assert!(c.on_tick(at(60, 501_000_000)).is_empty());
}

#[test]
fn server_core_handle_reads_clock() {
    let mut c = ServerCore::start();
    let a = c.handle(Some(Message::CSOpenPort(2))).unwrap();
    assert!(matches!(a[0], Action::Attach(2)));
    assert!(c.handle(None).unwrap().is_empty());
}

#[test]
fn decode_client_frames() {
    assert!(matches!(next_message(&[8]), Received::Frame(1, Message::CSHeartbeat)));
    assert!(matches!(next_message(&[1, 0, 0, 0, 2]), Received::Frame(5, Message::CSOpenPort(2))));
    assert!(matches!(next_message(&[2, 0, 0, 0, 2]), Received::Frame(5, Message::CSClosePort(2))));
    assert!(matches!(next_message(&[4, 0, 0, 0, 2]), Received::Frame(5, Message::CSShutdownWrite(2))));
    match next_message(&[6, 0, 0, 0, 2, 0, 0, 0, 5, b'a', b'b', b'c', 0, 80, 9]) {
        Received::Frame(14, Message::CSConnectDN(2, n, 80)) => assert_eq!(n, b"abc".to_vec()),
        _ => panic!("expected a domain request"),
    }
    match next_message(&[7, 0, 0, 0, 2, 0, 0, 0, 1, 42]) {
        Received::Frame(10, Message::CSData(7, 2, b)) => assert_eq!(b, vec![42]),
        _ => panic!("expected data"),
    }
    assert!(matches!(next_message(&[6, 0, 0, 0, 2, 0, 0, 0, 5, b'a']), Received::NeedMore));
    assert!(matches!(next_message(&[7, 0, 0]), Received::NeedMore));
}

#[test]
fn domain_length_below_two_is_flagged() {
    assert!(length_underflows(&[6, 0, 0, 0, 2, 0, 0, 0, 1]));
    assert!(!length_underflows(&[6, 0, 0, 0, 2, 0, 0, 0, 2]));
    assert!(!length_underflows(&[7, 0, 0, 0, 2, 0, 0, 0, 1]));
    assert!(!length_underflows(&[6, 0, 0]));
}

#[test]
fn dial_order_keeps_ipv4_at_requested_port() {
    let hosts = vec![
        None,
        Some(V4Addr { a: 1, b: 2, c: 3, d: 4, port: 0 }),
        None,
        Some(V4Addr { a: 5, b: 6, c: 7, d: 8, port: 9 }),
    ];
    assert_eq!(
        dial_order(&hosts, 443),
        vec![V4Addr { a: 1, b: 2, c: 3, d: 4, port: 443 }, V4Addr { a: 5, b: 6, c: 7, d: 8, port: 443 }]
    );
    assert!(dial_order(&vec![None], 80).is_empty());
}

#[test]
fn server_tick_at_reports_unmeasurable_span() {
    let c = ServerCore::new(at(0, 0));
    assert!(c.tick_at(at(9_223_372_036_854_776, 0)).is_none());
    assert!(c.tick_at(at(1, 0)).unwrap().is_empty());
}

#[test]
fn connect_report_messages() {
    let w = TunnelWritePort::new(4);
    let a = V4Addr { a: 10, b: 1, c: 2, d: 3, port: 40000 };
    assert!(matches!(w.connect_report(Some(BoundAddr::V4(a))),
        Message::SCConnectOk(4, ref t) if *t == b"10.1.2.3:40000".to_vec()));
    assert!(matches!(w.connect_report(Some(BoundAddr::Other(b"[::1]:9".to_vec()))),
        Message::SCConnectOk(4, ref t) if *t == b"[::1]:9".to_vec()));
    assert!(matches!(w.connect_report(None), Message::SCClosePort(4)));
}
