//! The SOCKS5 handshake as the local proxy speaks it: choosing the
//! authentication method, reading the connect request, and building replies.
//!
//! Each parser reads from the bytes that the browser has sent so far and
//! reports `TcpError::Eof` when they end before the message does; it returns
//! how many bytes the message took.

use vstd::prelude::*;
use crate::wire::{be16, be16_at, push_be16, read_be16, copy_range};

verus! {

pub const SOCK_V5: u8 = 5;
pub const RSV: u8 = 0;
pub const ATYP_IP_V4: u8 = 1;
pub const ATYP_DOMAINNAME: u8 = 3;
pub const CMD_CONNECT: u8 = 1;
pub const METHOD_NO_AUTH: u8 = 0;
pub const METHOD_NO_ACCP: u8 = 0xFF;

#[verifier::external_type_specification]
#[verifier::external_body]
pub struct ExIoError(std::io::Error);

/// Why reading from or writing to a stream failed.
#[derive(Debug)]
pub enum TcpError {
    /// The stream ended before the expected bytes arrived.
    Eof,
    /// The operating system reported an error.
    IoError(std::io::Error),
    /// The peer sent bytes that break the protocol.
    ErrorData,
}

/// An IPv4 socket address: the address `a.b.c.d` and a port.
#[derive(Clone, Copy, Debug, PartialEq, Eq, Structural)]
pub struct V4Addr {
    pub a: u8,
    pub b: u8,
    pub c: u8,
    pub d: u8,
    pub port: u16,
}

/// Where the browser asked to be connected.
#[derive(Debug)]
pub enum ConnectInfo {
    Addr(V4Addr),
    Domain(Vec<u8>, u16),
    Unknown,
}

/// The mathematical form of a `ConnectInfo`.
pub enum ConnectInfoView {
    Addr(V4Addr),
    Domain(Seq<u8>, u16),
    Unknown,
}

impl View for ConnectInfo {
    type V = ConnectInfoView;

    open spec fn view(&self) -> ConnectInfoView {
        match self {
            ConnectInfo::Addr(a) => ConnectInfoView::Addr(*a),
            ConnectInfo::Domain(name, port) => ConnectInfoView::Domain(name@, *port),
            ConnectInfo::Unknown => ConnectInfoView::Unknown,
        }
    }
}

/// What reading a connect request from a byte sequence gives.
pub enum RequestView {
    /// The bytes end before the request does.
    Eof,
    /// The version or reserved byte is wrong.
    ErrorData,
    /// The request took this many bytes and asks for this target.
    Parsed(int, ConnectInfoView),
}

/// The method the proxy chooses from the method-selection message at the
/// start of `s`, with the number of bytes read, or `None` when `s` ends
/// first. The message is the version, the number of methods, and that many
/// method codes; "no authentication" is chosen when it is among them, and
/// "no acceptable method" otherwise. A first byte other than the SOCKS
/// version ends the message at once and selects "no authentication".
pub open spec fn method_choice(s: Seq<u8>) -> Option<(int, u8)> {
    if s.len() < 1 {
        None
    } else if s[0] != SOCK_V5 {
        Some((1, METHOD_NO_AUTH))
    } else if s.len() < 2 || s.len() < 2 + s[1] {
        None
    } else if s.subrange(2, 2 + s[1]).contains(METHOD_NO_AUTH) {
        Some((2 + s[1], METHOD_NO_AUTH))
    } else {
        Some((2 + s[1], METHOD_NO_ACCP))
    }
}

/// The connect request at the start of `s`: version, command, reserved
/// byte, address type, the destination address, and the destination port
/// in network order.
pub open spec fn connect_request_spec(s: Seq<u8>) -> RequestView {
    if s.len() < 4 {
        RequestView::Eof
    } else if s[0] != SOCK_V5 || s[2] != RSV {
        RequestView::ErrorData
    } else if s[1] != CMD_CONNECT {
        RequestView::Parsed(4, ConnectInfoView::Unknown)
    } else if s[3] == ATYP_IP_V4 {
        if s.len() < 10 {
            RequestView::Eof
        } else {
            RequestView::Parsed(
                10,
                ConnectInfoView::Addr(
                    V4Addr { a: s[4], b: s[5], c: s[6], d: s[7], port: be16_at(s, 8) },
                ),
            )
        }
    } else if s[3] == ATYP_DOMAINNAME {
        if s.len() < 5 || s.len() < 7 + s[4] {
            RequestView::Eof
        } else {
            RequestView::Parsed(
                7 + s[4],
                ConnectInfoView::Domain(s.subrange(5, 5 + s[4]), be16_at(s, 5 + s[4])),
            )
        }
    } else {
        RequestView::Parsed(4, ConnectInfoView::Unknown)
    }
}

/// The reply that tells the browser the outcome `rep` of its request and
/// the bound address: version, reply code, reserved byte, address type,
/// the four address bytes, and the port in network order.
pub open spec fn reply_bytes(addr: V4Addr, rep: u8) -> Seq<u8> {
    seq![SOCK_V5, rep, RSV, ATYP_IP_V4, addr.a, addr.b, addr.c, addr.d] + be16(addr.port)
}

/// Reads the method-selection message and chooses the method: "no
/// authentication" if the browser offers it, "no acceptable method"
/// otherwise.
pub fn get_method(buf: &[u8]) -> (r: Result<(usize, u8), TcpError>)
    ensures
        match r {
            Ok((n, m)) => method_choice(buf@) == Some((n as int, m)),
            Err(e) => method_choice(buf@) is None && e is Eof,
        },
{
    if buf.len() < 1 {
        return Err(TcpError::Eof);
    }
    if buf[0] != SOCK_V5 {
        return Ok((1, METHOD_NO_AUTH));
    }
    if buf.len() < 2 {
        return Err(TcpError::Eof);
    }
    let n = buf[1] as usize;
    if buf.len() < 2 + n {
        return Err(TcpError::Eof);
    }
    let ghost methods = buf@.subrange(2, 2 + n as int);
    let mut i: usize = 0;
    while i < n
        invariant
            n == buf@[1],
            buf@[0] == SOCK_V5,
            2 + n <= buf@.len(),
            methods == buf@.subrange(2, 2 + n as int),
            i <= n,
            forall|j: int| 0 <= j < i ==> methods[j] != METHOD_NO_AUTH,
        decreases n - i,
    {
        if buf[2 + i] == METHOD_NO_AUTH {
            assert(methods[i as int] == METHOD_NO_AUTH);
            assert(methods.contains(METHOD_NO_AUTH));
            assert(buf@.subrange(2, 2 + buf@[1]) == methods);
            return Ok((2 + n, METHOD_NO_AUTH));
        }
        i = i + 1;
    }
    assert(!methods.contains(METHOD_NO_AUTH));
    assert(buf@.subrange(2, 2 + buf@[1]) == methods);
    Ok((2 + n, METHOD_NO_ACCP))
}

/// The answer to the method-selection message.
pub fn method_reply(method: u8) -> (r: Vec<u8>)
    ensures
        r@ == seq![SOCK_V5, method],
{
    let mut r = Vec::new();
    r.push(SOCK_V5);
    r.push(method);
    assert(r@ =~= seq![SOCK_V5, method]);
    r
}

/// Reads the connect request that follows the method selection.
pub fn connect_request(buf: &[u8]) -> (r: Result<(usize, ConnectInfo), TcpError>)
    ensures
        match r {
            Ok((n, info)) => connect_request_spec(buf@) == RequestView::Parsed(n as int, info@),
            Err(TcpError::Eof) => connect_request_spec(buf@) is Eof,
            Err(TcpError::ErrorData) => connect_request_spec(buf@) is ErrorData,
            Err(TcpError::IoError(_)) => false,
        },
{
    if buf.len() < 4 {
        return Err(TcpError::Eof);
    }
    if buf[0] != SOCK_V5 || buf[2] != RSV {
        return Err(TcpError::ErrorData);
    }
    if buf[1] != CMD_CONNECT {
        return Ok((4, ConnectInfo::Unknown));
    }
    let addr_type = buf[3];
    if addr_type == ATYP_IP_V4 {
        if buf.len() < 10 {
            return Err(TcpError::Eof);
        }
        let port = read_be16(buf, 8);
        Ok((10, ConnectInfo::Addr(V4Addr { a: buf[4], b: buf[5], c: buf[6], d: buf[7], port })))
    } else if addr_type == ATYP_DOMAINNAME {
        if buf.len() < 5 {
            return Err(TcpError::Eof);
        }
        let len = buf[4] as usize;
        if buf.len() < 7 + len {
            return Err(TcpError::Eof);
        }
        let domain = copy_range(buf, 5, 5 + len);
        let port = read_be16(buf, 5 + len);
        Ok((7 + len, ConnectInfo::Domain(domain, port)))
    } else {
        Ok((4, ConnectInfo::Unknown))
    }
}

/// The reply that reports `rep_info` and the bound address `addr`.
pub fn get_reply(addr: V4Addr, rep_info: u8) -> (r: Vec<u8>)
    ensures
        r@ == reply_bytes(addr, rep_info),
{
    let mut r = Vec::new();
    r.push(SOCK_V5);
    r.push(rep_info);
    r.push(RSV);
    r.push(ATYP_IP_V4);
    r.push(addr.a);
    r.push(addr.b);
    r.push(addr.c);
    r.push(addr.d);
    push_be16(&mut r, addr.port);
    assert(r@ =~= reply_bytes(addr, rep_info));
    r
}

/// Reply code: the request succeeded.
pub const REP_SUCCEEDED: u8 = 0;

/// Reply code: general SOCKS server failure.
pub const REP_GENERAL_FAILURE: u8 = 1;

/// The reply sent once the server has connected: "succeeded" and the
/// address the server's connection is bound to.
pub fn success_reply(addr: V4Addr) -> (r: Vec<u8>)
    ensures
        r@ == reply_bytes(addr, REP_SUCCEEDED),
{
    get_reply(addr, REP_SUCCEEDED)
}

/// The reply sent when no connection could be made: "general failure" and
/// the address 0.0.0.0:0, whatever `addr` is.
pub fn failure_reply(addr: V4Addr) -> (r: Vec<u8>)
    ensures
        r@ == reply_bytes(V4Addr { a: 0, b: 0, c: 0, d: 0, port: 0 }, REP_GENERAL_FAILURE),
{
    get_reply(V4Addr { a: 0, b: 0, c: 0, d: 0, port: 0 }, REP_GENERAL_FAILURE)
}

/// The decimal digits of `n` in ASCII, without leading zeros.
pub open spec fn decimal(n: nat) -> Seq<u8>
    decreases n,
{
    if n < 10 {
        seq![(48 + n) as u8]
    } else {
        decimal(n / 10).push((48 + n % 10) as u8)
    }
}

/// The text form `a.b.c.d:port` of an IPv4 socket address.
pub open spec fn addr_text(addr: V4Addr) -> Seq<u8> {
    decimal(addr.a as nat) + seq![46u8] + decimal(addr.b as nat) + seq![46u8] + decimal(
        addr.c as nat,
    ) + seq![46u8] + decimal(addr.d as nat) + seq![58u8] + decimal(addr.port as nat)
}

/// Appends the decimal digits of `n` to `out`.
pub fn push_decimal(out: &mut Vec<u8>, n: u32)
    ensures
        final(out)@ == old(out)@ + decimal(n as nat),
    decreases n,
{
    if n >= 10 {
        push_decimal(out, n / 10);
    }
    out.push((48 + n % 10) as u8);
    assert(final(out)@ =~= old(out)@ + decimal(n as nat));
}

/// The text form of `addr`, as it travels in a connect frame.
pub fn format_addr(addr: &V4Addr) -> (r: Vec<u8>)
    ensures
        r@ == addr_text(*addr),
{
    let mut r = Vec::new();
    push_decimal(&mut r, addr.a as u32);
    r.push(46u8);
    push_decimal(&mut r, addr.b as u32);
    r.push(46u8);
    push_decimal(&mut r, addr.c as u32);
    r.push(46u8);
    push_decimal(&mut r, addr.d as u32);
    r.push(58u8);
    push_decimal(&mut r, addr.port as u32);
    assert(r@ =~= addr_text(*addr));
    r
}

/// Whether `c` is an ASCII decimal digit.
pub open spec fn is_digit(c: u8) -> bool {
    48 <= c <= 57
}

/// Whether every byte of `s` is a decimal digit.
pub open spec fn all_digits(s: Seq<u8>) -> bool {
    forall|i: int| 0 <= i < s.len() ==> is_digit(#[trigger] s[i])
}

/// The number that the decimal digits `s` spell.
pub open spec fn digits_value(s: Seq<u8>) -> nat
    decreases s.len(),
{
    if s.len() == 0 {
        0
    } else {
        10 * digits_value(s.drop_last()) + (s.last() - 48) as nat
    }
}

/// Ten to the power `k`.
pub open spec fn pow10(k: nat) -> nat
    decreases k,
{
    if k == 0 {
        1
    } else {
        10 * pow10((k - 1) as nat)
    }
}

/// The decimal text of a number is a non-empty run of digits, without a
/// leading zero, that spells the number.
pub proof fn lemma_decimal_digits(n: nat)
    ensures
        decimal(n).len() >= 1,
        all_digits(decimal(n)),
        decimal(n).len() == 1 || decimal(n)[0] != 48,
        digits_value(decimal(n)) == n,
    decreases n,
{
    let dn = decimal(n);
    if n < 10 {
        assert(dn == seq![(48 + n) as u8]);
        assert(dn.drop_last() =~= Seq::<u8>::empty());
        assert(digits_value(dn.drop_last()) == 0);
    } else {
        lemma_decimal_digits(n / 10);
        let p = decimal(n / 10);
        assert(dn == p.push((48 + n % 10) as u8));
        assert(dn.drop_last() =~= p);
        assert(dn.last() == (48 + n % 10) as u8);
        assert(dn[0] == p[0]);
        assert(10 * (n / 10) + n % 10 == n) by (nonlinear_arith);
        assert(n / 10 >= 1);
        if n / 10 < 10 {
            assert(p == seq![(48 + n / 10) as u8]);
        } else {
            assert(p == decimal(n / 10 / 10).push((48 + (n / 10) % 10) as u8));
            lemma_decimal_digits(n / 10 / 10);
            assert(p.len() >= 2);
        }
        assert forall|i: int| 0 <= i < dn.len() implies is_digit(#[trigger] dn[i]) by {
            if i < p.len() {
                assert(dn[i] == p[i]);
            }
        }
    }
}

/// A number below `10^k` has at most `k` decimal digits.
pub proof fn lemma_decimal_len(n: nat, k: nat)
    requires
        1 <= k,
        n < pow10(k),
    ensures
        decimal(n).len() <= k,
    decreases k,
{
    if n >= 10 {
        if k == 1 {
            assert(pow10(1) == 10) by {
                assert(pow10(0) == 1);
            }
        } else {
            assert(n / 10 < pow10((k - 1) as nat)) by (nonlinear_arith)
                requires
                    n < 10 * pow10((k - 1) as nat),
            ;
            lemma_decimal_len(n / 10, (k - 1) as nat);
        }
    }
}

/// A digit run that does not start with zero spells a positive number.
proof fn lemma_value_positive(s: Seq<u8>)
    requires
        s.len() >= 1,
        all_digits(s),
        s[0] != 48,
    ensures
        digits_value(s) >= 1,
    decreases s.len(),
{
    if s.len() > 1 {
        let t = s.drop_last();
        assert(t[0] == s[0]);
        assert forall|i: int| 0 <= i < t.len() implies is_digit(#[trigger] t[i]) by {
            assert(t[i] == s[i]);
        }
        lemma_value_positive(t);
    } else {
        assert(s.drop_last().len() == 0);
        assert(is_digit(s[0]));
    }
}

/// A run of `k` digits spells a number below `10^k`.
proof fn lemma_value_bound(s: Seq<u8>)
    requires
        all_digits(s),
    ensures
        digits_value(s) < pow10(s.len()),
    decreases s.len(),
{
    if s.len() > 0 {
        let t = s.drop_last();
        assert forall|i: int| 0 <= i < t.len() implies is_digit(#[trigger] t[i]) by {
            assert(t[i] == s[i]);
        }
        lemma_value_bound(t);
        assert(is_digit(s[s.len() - 1]));
        let w = digits_value(t);
        let p = pow10(t.len());
        assert(10 * w + 9 < 10 * p) by (nonlinear_arith)
            requires
                w < p,
        ;
    }
}

/// A digit run without a leading zero is the decimal text of the number it
/// spells.
proof fn lemma_canonical_decimal(s: Seq<u8>)
    requires
        s.len() >= 1,
        all_digits(s),
        s.len() == 1 || s[0] != 48,
    ensures
        decimal(digits_value(s)) == s,
    decreases s.len(),
{
    assert(is_digit(s[s.len() - 1]));
    if s.len() == 1 {
        assert(s.drop_last() =~= Seq::<u8>::empty());
        assert(digits_value(s.drop_last()) == 0);
        assert(digits_value(s) == (s[0] - 48) as nat);
        assert(decimal(digits_value(s)) == seq![(48 + digits_value(s)) as u8]);
        assert(decimal(digits_value(s)) =~= s);
    } else {
        let t = s.drop_last();
        assert(t[0] == s[0]);
        assert forall|i: int| 0 <= i < t.len() implies is_digit(#[trigger] t[i]) by {
            assert(t[i] == s[i]);
        }
        lemma_value_positive(t);
        lemma_canonical_decimal(t);
        let w = digits_value(t);
        let d = (s.last() - 48) as nat;
        let v = digits_value(s);
        assert(v == 10 * w + d);
        assert(v / 10 == w && v % 10 == d) by (nonlinear_arith)
            requires
                v == 10 * w + d,
                d < 10,
        ;
        assert(decimal(v) == decimal(w).push((48 + d) as u8));
        assert(decimal(v) =~= s);
    }
}

/// Reads the decimal number that starts at `pos`: a run of at most
/// `max_digits` digits, without a leading zero, not followed by another
/// digit, spelling a number no greater than `max`.
fn scan_number(b: &[u8], pos: usize, max_digits: usize, max: u32) -> (r: Option<(u32, usize)>)
    requires
        pos <= b@.len(),
        1 <= max_digits <= 5,
    ensures
        match r {
            Some((v, end)) => {
                &&& pos < end <= b@.len()
                &&& v <= max
                &&& b@.subrange(pos as int, end as int) == decimal(v as nat)
            },
            None => true,
        },
        forall|n: nat, end: int|
            #![trigger b@.subrange(pos as int, end), decimal(n)]
            pos < end <= b@.len() && n <= max && b@.subrange(pos as int, end) == decimal(n)
                && decimal(n).len() <= max_digits && (end == b@.len() || !is_digit(b@[end]))
                ==> r == Some((n as u32, end as usize)),
{
    let mut i: usize = pos;
    let mut v: u32 = 0;
    while i < b.len() && 48 <= b[i] && b[i] <= 57 && i - pos < max_digits
        invariant
            pos <= i <= b@.len(),
            i - pos <= max_digits,
            max_digits <= 5,
            all_digits(b@.subrange(pos as int, i as int)),
            v == digits_value(b@.subrange(pos as int, i as int)),
            v < pow10((i - pos) as nat),
        decreases b@.len() - i,
    {
        let ghost old_run = b@.subrange(pos as int, i as int);
        proof {
            assert(pow10((i - pos) as nat) <= 10000) by {
                assert(pow10(0) == 1);
                assert(pow10(1) == 10);
                assert(pow10(2) == 100);
                assert(pow10(3) == 1000);
                assert(pow10(4) == 10000);
            }
        }
        v = v * 10 + (b[i] - 48) as u32;
        i = i + 1;
        proof {
            let run = b@.subrange(pos as int, i as int);
            assert(run.drop_last() =~= old_run);
            assert forall|j: int| 0 <= j < run.len() implies is_digit(#[trigger] run[j]) by {
                if j < old_run.len() {
                    assert(run[j] == old_run[j]);
                }
            }
            lemma_value_bound(run);
        }
    }
    let ghost run = b@.subrange(pos as int, i as int);
    proof {
        assert forall|n: nat, end: int|
            #![trigger b@.subrange(pos as int, end), decimal(n)]
            pos < end <= b@.len() && n <= max && b@.subrange(pos as int, end) == decimal(n)
                && decimal(n).len() <= max_digits && (end == b@.len() || !is_digit(b@[end]))
                implies i == end && digits_value(b@.subrange(pos as int, end)) == n by {
            lemma_decimal_digits(n);
            let dn = decimal(n);
            if i < end {
                assert(dn[i - pos] == b@[i as int]);
                assert(is_digit(dn[i - pos]));
            } else if i > end {
                assert(run[end - pos] == b@[end]);
                assert(is_digit(run[end - pos]));
            }
        }
    }
    if i == pos {
        return None;
    }
    if i < b.len() && 48 <= b[i] && b[i] <= 57 {
        return None;
    }
    if i - pos > 1 && b[pos] == 48 {
        proof {
            assert forall|n: nat, end: int|
            #![trigger b@.subrange(pos as int, end), decimal(n)]
                pos < end <= b@.len() && n <= max && b@.subrange(pos as int, end) == decimal(n)
                    && decimal(n).len() <= max_digits && (end == b@.len() || !is_digit(b@[end]))
                    implies false by {
                lemma_decimal_digits(n);
                assert(decimal(n)[0] == b@[pos as int]);
            }
        }
        return None;
    }
    if v > max {
        return None;
    }
    proof {
        assert(run[0] == b@[pos as int]);
        lemma_canonical_decimal(run);
    }
    Some((v, i))
}

/// Where each part of `addr_text(a)` ends: the four address numbers, each
/// followed by a separator, and the port.
pub open spec fn text_ends(a: V4Addr) -> (int, int, int, int, int) {
    let e0 = decimal(a.a as nat).len() as int;
    let e1 = e0 + 1 + decimal(a.b as nat).len();
    let e2 = e1 + 1 + decimal(a.c as nat).len();
    let e3 = e2 + 1 + decimal(a.d as nat).len();
    let e4 = e3 + 1 + decimal(a.port as nat).len();
    (e0, e1, e2, e3, e4)
}

/// How `addr_text(a)` is laid out: numbers of at most three digits (five
/// for the port), separated by dots and a colon.
proof fn lemma_addr_text_layout(a: V4Addr)
    ensures
        ({
            let s = addr_text(a);
            let (e0, e1, e2, e3, e4) = text_ends(a);
            &&& decimal(a.a as nat).len() <= 3 && decimal(a.b as nat).len() <= 3
            &&& decimal(a.c as nat).len() <= 3 && decimal(a.d as nat).len() <= 3
            &&& decimal(a.port as nat).len() <= 5
            &&& 0 < e0 && e0 + 1 < e1 && e1 + 1 < e2 && e2 + 1 < e3 && e3 + 1 < e4
            &&& e4 == s.len()
            &&& s.subrange(0, e0) == decimal(a.a as nat)
            &&& s[e0] == 46u8
            &&& s.subrange(e0 + 1, e1) == decimal(a.b as nat)
            &&& s[e1] == 46u8
            &&& s.subrange(e1 + 1, e2) == decimal(a.c as nat)
            &&& s[e2] == 46u8
            &&& s.subrange(e2 + 1, e3) == decimal(a.d as nat)
            &&& s[e3] == 58u8
            &&& s.subrange(e3 + 1, e4) == decimal(a.port as nat)
        }),
{
    assert(pow10(3) == 1000 && pow10(5) == 100000) by {
        assert(pow10(0) == 1);
        assert(pow10(1) == 10);
        assert(pow10(2) == 100);
        assert(pow10(3) == 1000);
        assert(pow10(4) == 10000);
    }
    lemma_decimal_len(a.a as nat, 3);
    lemma_decimal_len(a.b as nat, 3);
    lemma_decimal_len(a.c as nat, 3);
    lemma_decimal_len(a.d as nat, 3);
    lemma_decimal_len(a.port as nat, 5);
    lemma_decimal_digits(a.a as nat);
    lemma_decimal_digits(a.b as nat);
    lemma_decimal_digits(a.c as nat);
    lemma_decimal_digits(a.d as nat);
    lemma_decimal_digits(a.port as nat);
    let s = addr_text(a);
    let (e0, e1, e2, e3, e4) = text_ends(a);
    assert(s.subrange(0, e0) =~= decimal(a.a as nat));
    assert(s.subrange(e0 + 1, e1) =~= decimal(a.b as nat));
    assert(s.subrange(e1 + 1, e2) =~= decimal(a.c as nat));
    assert(s.subrange(e2 + 1, e3) =~= decimal(a.d as nat));
    assert(s.subrange(e3 + 1, e4) =~= decimal(a.port as nat));
}

/// Reads the text form `a.b.c.d:port` of an IPv4 socket address, exactly
/// as `addr_text` writes it, and nothing else.
#[verifier::rlimit(40)]
pub fn parse_addr(b: &[u8]) -> (r: Option<V4Addr>)
    ensures
        match r {
            Some(a) => addr_text(a) == b@,
            None => true,
        },
        forall|a: V4Addr| addr_text(a) == b@ ==> r == Some(a),
{
    let ghost s = b@;
    let (x0, p0) = match scan_number(b, 0, 3, 255) {
        Some(t) => t,
        None => {
            proof {
                assert forall|a: V4Addr| addr_text(a) == s implies false by {
                    lemma_addr_text_layout(a);
                    let (e0, e1, e2, e3, e4) = text_ends(a);
                    lemma_decimal_digits(a.a as nat);
                    assert(s.subrange(0, e0) == decimal(a.a as nat));
                }
            }
            return None;
        },
    };
    proof {
        assert forall|a: V4Addr| addr_text(a) == s implies x0 == a.a && p0 == text_ends(a).0 by {
            lemma_addr_text_layout(a);
            let (e0, e1, e2, e3, e4) = text_ends(a);
            assert(s.subrange(0, e0) == decimal(a.a as nat));
        }
    }
    if p0 >= b.len() || b[p0] != 46u8 {
        proof {
            assert forall|a: V4Addr| addr_text(a) == s implies false by {
                lemma_addr_text_layout(a);
            }
        }
        return None;
    }
    let (x1, p1) = match scan_number(b, p0 + 1, 3, 255) {
        Some(t) => t,
        None => {
            proof {
                assert forall|a: V4Addr| addr_text(a) == s implies false by {
                    lemma_addr_text_layout(a);
                    let (e0, e1, e2, e3, e4) = text_ends(a);
                    assert(s.subrange(e0 + 1, e1) == decimal(a.b as nat));
                }
            }
            return None;
        },
    };
    proof {
        assert forall|a: V4Addr| addr_text(a) == s implies x1 == a.b && p1 == text_ends(a).1 by {
            lemma_addr_text_layout(a);
            let (e0, e1, e2, e3, e4) = text_ends(a);
            assert(s.subrange(e0 + 1, e1) == decimal(a.b as nat));
        }
    }
    if p1 >= b.len() || b[p1] != 46u8 {
        proof {
            assert forall|a: V4Addr| addr_text(a) == s implies false by {
                lemma_addr_text_layout(a);
            }
        }
        return None;
    }
    let (x2, p2) = match scan_number(b, p1 + 1, 3, 255) {
        Some(t) => t,
        None => {
            proof {
                assert forall|a: V4Addr| addr_text(a) == s implies false by {
                    lemma_addr_text_layout(a);
                    let (e0, e1, e2, e3, e4) = text_ends(a);
                    assert(s.subrange(e1 + 1, e2) == decimal(a.c as nat));
                }
            }
            return None;
        },
    };
    proof {
        assert forall|a: V4Addr| addr_text(a) == s implies x2 == a.c && p2 == text_ends(a).2 by {
            lemma_addr_text_layout(a);
            let (e0, e1, e2, e3, e4) = text_ends(a);
            assert(s.subrange(e1 + 1, e2) == decimal(a.c as nat));
        }
    }
    if p2 >= b.len() || b[p2] != 46u8 {
        proof {
            assert forall|a: V4Addr| addr_text(a) == s implies false by {
                lemma_addr_text_layout(a);
            }
        }
        return None;
    }
    let (x3, p3) = match scan_number(b, p2 + 1, 3, 255) {
        Some(t) => t,
        None => {
            proof {
                assert forall|a: V4Addr| addr_text(a) == s implies false by {
                    lemma_addr_text_layout(a);
                    let (e0, e1, e2, e3, e4) = text_ends(a);
                    assert(s.subrange(e2 + 1, e3) == decimal(a.d as nat));
                }
            }
            return None;
        },
    };
    proof {
        assert forall|a: V4Addr| addr_text(a) == s implies x3 == a.d && p3 == text_ends(a).3 by {
            lemma_addr_text_layout(a);
            let (e0, e1, e2, e3, e4) = text_ends(a);
            assert(s.subrange(e2 + 1, e3) == decimal(a.d as nat));
        }
    }
    if p3 >= b.len() || b[p3] != 58u8 {
        proof {
            assert forall|a: V4Addr| addr_text(a) == s implies false by {
                lemma_addr_text_layout(a);
            }
        }
        return None;
    }
    let (x4, p4) = match scan_number(b, p3 + 1, 5, 65535) {
        Some(t) => t,
        None => {
            proof {
                assert forall|a: V4Addr| addr_text(a) == s implies false by {
                    lemma_addr_text_layout(a);
                    let (e0, e1, e2, e3, e4) = text_ends(a);
                    assert(s.subrange(e3 + 1, e4) == decimal(a.port as nat));
                }
            }
            return None;
        },
    };
    proof {
        assert forall|a: V4Addr| addr_text(a) == s implies x4 == a.port && p4 == text_ends(a).4 by {
            lemma_addr_text_layout(a);
            let (e0, e1, e2, e3, e4) = text_ends(a);
            assert(s.subrange(e3 + 1, e4) == decimal(a.port as nat));
        }
    }
    if p4 != b.len() {
        proof {
            assert forall|a: V4Addr| addr_text(a) == s implies false by {
                lemma_addr_text_layout(a);
            }
        }
        return None;
    }
    let r = V4Addr { a: x0 as u8, b: x1 as u8, c: x2 as u8, d: x3 as u8, port: x4 as u16 };
    proof {
        assert(s =~= s.subrange(0, p0 as int) + seq![46u8] + s.subrange(p0 + 1, p1 as int)
            + seq![46u8] + s.subrange(p1 + 1, p2 as int) + seq![46u8] + s.subrange(
            p2 + 1,
            p3 as int,
        ) + seq![58u8] + s.subrange(p3 + 1, p4 as int));
        assert(addr_text(r) == s);
    }
    Some(r)
}

/// A reply that reports the address of an IPv4 connect request repeats
/// the request's address and port bytes exactly as the browser sent them.
pub proof fn lemma_reply_echoes_request(s: Seq<u8>, addr: V4Addr, rep: u8)
    requires
        connect_request_spec(s) == RequestView::Parsed(10, ConnectInfoView::Addr(addr)),
    ensures
        reply_bytes(addr, rep).subrange(4, 10) == s.subrange(4, 10),
{
    crate::wire::lemma_be16_roundtrip(addr.port);
    let p = be16(addr.port);
    assert(s[3] == ATYP_IP_V4);
    assert(addr.port == be16_at(s, 8));
    assert(p[0] == s[8] && p[1] == s[9]) by (nonlinear_arith)
        requires
            p == be16(addr.port),
            addr.port == be16_at(s, 8),
            0 <= s[8] < 256,
            0 <= s[9] < 256,
    ;
    assert(reply_bytes(addr, rep).subrange(4, 10) =~= s.subrange(4, 10));
}

} // verus!
