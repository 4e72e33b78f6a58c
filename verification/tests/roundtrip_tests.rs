use simple_proxy::clock::Timestamp;
use simple_proxy::client;
use simple_proxy::server;

fn at(sec: i64) -> Timestamp {
    Timestamp { sec, nsec: 0 }
}

fn frames_of_client(acts: Vec<client::Action>) -> Vec<u8> {
    let mut out = Vec::new();
    for a in acts {
        if let client::Action::Write(b) = a {
            out.extend(b);
        }
    }
    out
}

fn frames_of_server(acts: Vec<server::Action>) -> Vec<u8> {
    let mut out = Vec::new();
    for a in acts {
        if let server::Action::Write(b) = a {
            out.extend(b);
        }
    }
    out
}

#[test]
fn client_frames_arrive_at_server_in_order() {
    let mut c = client::ClientCore::new(0, at(1));
    let mut wire = Vec::new();
    wire.extend(frames_of_client(c.on_message(client::Message::CSOpenPort(1), at(1))));
    wire.extend(frames_of_client(c.on_message(client::Message::CSConnect(1, b"9.9.9.9:53".to_vec()), at(1))));
    wire.extend(frames_of_client(c.on_message(client::Message::CSConnectDN(1, b"host".to_vec(), 8080), at(1))));
    wire.extend(frames_of_client(c.on_message(client::Message::CSData(1, vec![1, 2, 3]), at(1))));
    wire.extend(frames_of_client(c.on_tick(at(2))));
    wire.extend(frames_of_client(c.on_message(client::Message::CSShutdownWrite(1), at(1))));
    wire.extend(frames_of_client(c.on_message(client::Message::CSClosePort(1), at(1))));

    let mut got = Vec::new();
    let mut pos = 0;
    while pos < wire.len() {
        match server::next_message(&wire[pos..]) {
            server::Received::Frame(n, m) => {
                got.push(m);
                pos += n;
            }
            server::Received::NeedMore => panic!("frame cut short"),
        }
    }
    assert_eq!(got.len(), 7);
    assert!(matches!(got[0], server::Message::CSOpenPort(1)));
    assert!(matches!(got[1], server::Message::CSData(5, 1, ref b) if *b == b"9.9.9.9:53".to_vec()));
    assert!(matches!(got[2], server::Message::CSConnectDN(1, ref b, 8080) if *b == b"host".to_vec()));
    assert!(matches!(got[3], server::Message::CSData(7, 1, ref b) if *b == vec![1, 2, 3]));
    assert!(matches!(got[4], server::Message::CSHeartbeat));
    assert!(matches!(got[5], server::Message::CSShutdownWrite(1)));
    assert!(matches!(got[6], server::Message::CSClosePort(1)));
}

#[test]
fn server_frames_arrive_at_client_in_order() {
    let mut s = server::ServerCore::new(at(1));
    s.on_message(server::Message::CSOpenPort(4), at(1));
    let mut wire = Vec::new();
    wire.extend(frames_of_server(s.on_message(server::Message::CSHeartbeat, at(1))));
    wire.extend(frames_of_server(s.on_message(server::Message::SCConnectOk(4, b"1.2.3.4:5".to_vec()), at(1))));
    wire.extend(frames_of_server(s.on_message(server::Message::SCData(4, vec![7; 3]), at(1))));
    wire.extend(frames_of_server(s.on_message(server::Message::SCShutdownWrite(4), at(1))));
    wire.extend(frames_of_server(s.on_message(server::Message::SCClosePort(4), at(1))));

    let mut got = Vec::new();
    let mut pos = 0;
    while pos < wire.len() {
        match client::next_message(&wire[pos..]) {
            client::Received::Frame(n, m) => {
                got.push(m);
                pos += n;
            }
            _ => panic!("frame not read"),
        }
    }
    assert_eq!(got.len(), 5);
    assert!(matches!(got[0], client::Message::SCHeartbeat));
    assert!(matches!(got[1], client::Message::SCConnectOk(4, _)));
    assert!(matches!(got[2], client::Message::SCData(4, ref b) if *b == vec![7; 3]));
    assert!(matches!(got[3], client::Message::SCShutdownWrite(4)));
    assert!(matches!(got[4], client::Message::SCClosePort(4)));
}

#[test]
fn partial_frame_waits() {
    let mut c = client::ClientCore::new(0, at(1));
    let f = frames_of_client(c.on_message(client::Message::CSConnectDN(1, b"abc".to_vec(), 1), at(1)));
    for k in 0..f.len() {
        assert!(matches!(server::next_message(&f[..k]), server::Received::NeedMore));
    }
}
