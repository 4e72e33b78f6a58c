use simple_proxy::socks5::{
    get_method, method_reply, connect_request, get_reply, success_reply,
    failure_reply, format_addr, parse_addr, ConnectInfo, TcpError, V4Addr, METHOD_NO_AUTH, METHOD_NO_ACCP,
};

#[test]
fn method_no_auth_is_chosen() {
    assert!(matches!(get_method(&[5, 1, 0]), Ok((3, METHOD_NO_AUTH))));
}

#[test]
fn method_other_is_refused() {
    assert!(matches!(get_method(&[5, 1, 2]), Ok((3, METHOD_NO_ACCP))));
}

#[test]
fn method_wrong_version_takes_one_byte() {
    assert!(matches!(get_method(&[4, 1, 0]), Ok((1, 0))));
}

#[test]
fn method_short_input_is_eof() {
    assert!(matches!(get_method(&[]), Err(TcpError::Eof)));
    assert!(matches!(get_method(&[5]), Err(TcpError::Eof)));
    assert!(matches!(get_method(&[5, 1]), Err(TcpError::Eof)));
    assert!(matches!(get_method(&[5]), Err(TcpError::Eof)));
}

#[test]
fn method_several_offered_picks_no_auth() {
    assert!(matches!(get_method(&[5, 2, 0, 2]), Ok((4, METHOD_NO_AUTH))));
    assert!(matches!(get_method(&[5, 3, 1, 2, 0, 9]), Ok((5, METHOD_NO_AUTH))));
}

#[test]
fn method_several_without_no_auth_is_refused() {
    assert!(matches!(get_method(&[5, 2, 1, 2]), Ok((4, METHOD_NO_ACCP))));
    assert!(matches!(get_method(&[5, 0]), Ok((2, METHOD_NO_ACCP))));
}

#[test]
fn method_list_cut_short_is_eof() {
    assert!(matches!(get_method(&[5, 3, 0, 1]), Err(TcpError::Eof)));
}

#[test]
fn method_reply_bytes() {
    assert_eq!(method_reply(0), vec![5, 0]);
}

#[test]
fn request_ipv4_address() {
    let req = [5u8, 1, 0, 1, 8, 8, 4, 4, 0x01, 0xbb, 99];
    match connect_request(&req) {
        Ok((10, ConnectInfo::Addr(a))) => {
            assert_eq!(a, V4Addr { a: 8, b: 8, c: 4, d: 4, port: 443 });
            assert_eq!(format_addr(&a), b"8.8.4.4:443".to_vec());
        }
        _ => panic!("expected an IPv4 target"),
    }
}

#[test]
fn request_domain() {
    let mut req = vec![5u8, 1, 0, 3, 7];
    req.extend_from_slice(b"xxx.com");
    req.extend_from_slice(&[0x01, 0xbb]);
    match connect_request(&req) {
        Ok((14, ConnectInfo::Domain(name, port))) => {
            assert_eq!(name, b"xxx.com".to_vec());
            assert_eq!(port, 443);
        }
        _ => panic!("expected a domain target"),
    }
}

#[test]
fn request_bad_version_is_error_data() {
    assert!(matches!(connect_request(&[4, 1, 0, 1]), Err(TcpError::ErrorData)));
    assert!(matches!(connect_request(&[5, 1, 1, 1]), Err(TcpError::ErrorData)));
}

#[test]
fn request_other_command_is_unknown() {
    assert!(matches!(connect_request(&[5, 2, 0, 1]), Ok((4, ConnectInfo::Unknown))));
}

#[test]
fn request_ipv6_is_unknown() {
    assert!(matches!(connect_request(&[5, 1, 0, 4, 0, 0]), Ok((4, ConnectInfo::Unknown))));
}

#[test]
fn request_short_is_eof() {
    assert!(matches!(connect_request(&[5, 1, 0]), Err(TcpError::Eof)));
    assert!(matches!(connect_request(&[5, 1, 0, 1, 8, 8, 4, 4, 1]), Err(TcpError::Eof)));
    assert!(matches!(connect_request(&[5, 1, 0, 3]), Err(TcpError::Eof)));
    assert!(matches!(connect_request(&[5, 1, 0, 3, 3, b'a', b'b', b'c', 1]), Err(TcpError::Eof)));
}

#[test]
fn reply_bytes() {
    let a = V4Addr { a: 10, b: 0, c: 0, d: 2, port: 8080 };
    assert_eq!(get_reply(a, 7), vec![5, 7, 0, 1, 10, 0, 0, 2, 0x1f, 0x90]);
    assert_eq!(success_reply(a), vec![5, 0, 0, 1, 10, 0, 0, 2, 0x1f, 0x90]);
    assert_eq!(failure_reply(a), vec![5, 1, 0, 1, 0, 0, 0, 0, 0, 0]);
}

#[test]
fn reply_echoes_request_address() {
    let req = [5u8, 1, 0, 1, 192, 168, 1, 20, 0x00, 0x50];
    match connect_request(&req) {
        Ok((10, ConnectInfo::Addr(a))) => {
            let rep = success_reply(a);
            assert_eq!(&rep[4..10], &req[4..10]);
        }
        _ => panic!("expected an IPv4 target"),
    }
}

#[test]
fn address_text_extremes() {
    assert_eq!(format_addr(&V4Addr { a: 0, b: 0, c: 0, d: 0, port: 0 }), b"0.0.0.0:0".to_vec());
    assert_eq!(
        format_addr(&V4Addr { a: 255, b: 255, c: 255, d: 255, port: 65535 }),
        b"255.255.255.255:65535".to_vec()
    );
    assert_eq!(
        format_addr(&V4Addr { a: 127, b: 0, c: 10, d: 9, port: 1080 }),
        b"127.0.10.9:1080".to_vec()
    );
}

#[test]
fn parse_addr_reads_back_address_text() {
    for a in [
        V4Addr { a: 0, b: 0, c: 0, d: 0, port: 0 },
        V4Addr { a: 255, b: 255, c: 255, d: 255, port: 65535 },
        V4Addr { a: 127, b: 0, c: 10, d: 9, port: 1080 },
        V4Addr { a: 8, b: 80, c: 100, d: 1, port: 443 },
    ] {
        assert_eq!(parse_addr(&format_addr(&a)), Some(a));
    }
}

#[test]
fn parse_addr_refuses_other_text() {
    for t in [
        &b""[..], b"1.2.3.4", b"1.2.3.4:", b"1.2.3:4", b"256.0.0.1:1", b"1.2.3.4:65536",
        b"01.2.3.4:5", b"1.2.3.4:05", b"1.2.3.4:5 ", b"a.2.3.4:5", b"[::1]:80", b"1.2.3.4.5:6",
        b"1234.2.3.4:5",
    ] {
        assert_eq!(parse_addr(t), None);
    }
}
