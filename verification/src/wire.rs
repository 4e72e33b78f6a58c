//! Byte-level encoding shared by both ends of a tunnel: big-endian integers
//! and the frames that carry tunnel messages.
//!
//! Every frame starts with a one-byte operation code. Frames that concern a
//! port continue with the port id as a big-endian `u32`; frames that carry
//! bytes continue with the payload length as a big-endian `u32` and the
//! payload itself.

use vstd::prelude::*;
use crate::protocol::cs;

verus! {

/// The two bytes of `v` in network (big-endian) order.
pub open spec fn be16(v: u16) -> Seq<u8> {
    seq![(v / 256) as u8, (v % 256) as u8]
}

/// The four bytes of `v` in network (big-endian) order.
pub open spec fn be32(v: u32) -> Seq<u8> {
    seq![
        (v / 0x100_0000) as u8,
        ((v / 0x1_0000) % 256) as u8,
        ((v / 0x100) % 256) as u8,
        (v % 256) as u8,
    ]
}

/// The big-endian `u16` stored in `s` at index `at`.
pub open spec fn be16_at(s: Seq<u8>, at: int) -> u16 {
    (s[at] as int * 256 + s[at + 1] as int) as u16
}

/// The big-endian `u32` stored in `s` at index `at`.
pub open spec fn be32_at(s: Seq<u8>, at: int) -> u32 {
    (s[at] as int * 0x100_0000 + s[at + 1] as int * 0x1_0000 + s[at + 2] as int * 0x100
        + s[at + 3] as int) as u32
}

/// Reading back the bytes of a `u16` gives the `u16`.
pub proof fn lemma_be16_roundtrip(v: u16)
    ensures
        be16(v).len() == 2,
        be16_at(be16(v), 0) == v,
{
    assert((v / 256) * 256 + v % 256 == v) by (nonlinear_arith);
}

/// Reading back the bytes of a `u32` gives the `u32`.
pub proof fn lemma_be32_roundtrip(v: u32)
    ensures
        be32(v).len() == 4,
        be32_at(be32(v), 0) == v,
{
    let a = v / 0x100_0000;
    let b = (v / 0x1_0000) % 256;
    let c = (v / 0x100) % 256;
    let d = v % 256;
    assert(a < 256) by (nonlinear_arith)
        requires
            a == v / 0x100_0000,
    ;
    assert(a * 0x100_0000 + b * 0x1_0000 + c * 0x100 + d == v) by (nonlinear_arith)
        requires
            a == v / 0x100_0000,
            b == (v / 0x1_0000) % 256,
            c == (v / 0x100) % 256,
            d == v % 256,
    ;
}

/// `be32_at` only looks at the four bytes it reads.
pub proof fn lemma_be32_at_prefix(s: Seq<u8>, t: Seq<u8>, at: int)
    requires
        0 <= at,
        at + 4 <= s.len(),
    ensures
        be32_at(s + t, at) == be32_at(s, at),
{
    assert((s + t)[at] == s[at]);
    assert((s + t)[at + 1] == s[at + 1]);
    assert((s + t)[at + 2] == s[at + 2]);
    assert((s + t)[at + 3] == s[at + 3]);
}

/// Wherever the bytes of a `u32` sit in a sequence, reading there gives
/// the `u32` back.
pub proof fn lemma_be32_at_placed(s: Seq<u8>, at: int, v: u32)
    requires
        0 <= at,
        at + 4 <= s.len(),
        s.subrange(at, at + 4) == be32(v),
    ensures
        be32_at(s, at) == v,
{
    lemma_be32_roundtrip(v);
    let b = be32(v);
    assert(s[at] == s.subrange(at, at + 4)[0]);
    assert(s[at + 1] == s.subrange(at, at + 4)[1]);
    assert(s[at + 2] == s.subrange(at, at + 4)[2]);
    assert(s[at + 3] == s.subrange(at, at + 4)[3]);
}

/// Wherever the bytes of a `u16` sit in a sequence, reading there gives
/// the `u16` back.
pub proof fn lemma_be16_at_placed(s: Seq<u8>, at: int, v: u16)
    requires
        0 <= at,
        at + 2 <= s.len(),
        s.subrange(at, at + 2) == be16(v),
    ensures
        be16_at(s, at) == v,
{
    lemma_be16_roundtrip(v);
    assert(s[at] == s.subrange(at, at + 2)[0]);
    assert(s[at + 1] == s.subrange(at, at + 2)[1]);
}

/// The fields of an id frame followed by any bytes `t`.
pub proof fn lemma_id_frame_fields(op: u8, id: u32, t: Seq<u8>)
    ensures
        id_frame(op, id).len() == 5,
        (id_frame(op, id) + t).len() == 5 + t.len(),
        (id_frame(op, id) + t)[0] == op,
        be32_at(id_frame(op, id) + t, 1) == id,
{
    let s = id_frame(op, id) + t;
    lemma_be32_roundtrip(id);
    assert(s.subrange(1, 5) =~= be32(id));
    lemma_be32_at_placed(s, 1, id);
}

/// The fields of a payload frame followed by any bytes `t`, for a payload
/// whose length fits its 32-bit length field.
pub proof fn lemma_payload_frame_fields(op: u8, id: u32, p: Seq<u8>, t: Seq<u8>)
    requires
        p.len() <= u32::MAX,
    ensures
        payload_frame(op, id, p).len() == 9 + p.len(),
        (payload_frame(op, id, p) + t).len() == 9 + p.len() + t.len(),
        (payload_frame(op, id, p) + t)[0] == op,
        be32_at(payload_frame(op, id, p) + t, 1) == id,
        be32_at(payload_frame(op, id, p) + t, 5) == p.len(),
        (payload_frame(op, id, p) + t).subrange(9, 9 + p.len() as int) == p,
{
    let s = payload_frame(op, id, p) + t;
    lemma_be32_roundtrip(id);
    lemma_be32_roundtrip(p.len() as u32);
    assert(s.subrange(1, 5) =~= be32(id));
    assert(s.subrange(5, 9) =~= be32(p.len() as u32));
    lemma_be32_at_placed(s, 1, id);
    lemma_be32_at_placed(s, 5, p.len() as u32);
    assert(s.subrange(9, 9 + p.len() as int) =~= p);
}

/// The fields of a domain frame followed by any bytes `t`, for a name whose
/// length fits the frame's length field.
pub proof fn lemma_domain_frame_fields(id: u32, name: Seq<u8>, port: u16, t: Seq<u8>)
    requires
        name.len() + 2 <= u32::MAX,
    ensures
        domain_frame(id, name, port).len() == 11 + name.len(),
        (domain_frame(id, name, port) + t).len() == 11 + name.len() + t.len(),
        (domain_frame(id, name, port) + t)[0] == cs::CONNECT_DOMAIN_NAME,
        be32_at(domain_frame(id, name, port) + t, 1) == id,
        be32_at(domain_frame(id, name, port) + t, 5) == name.len() + 2,
        (domain_frame(id, name, port) + t).subrange(9, 9 + name.len() as int) == name,
        be16_at(domain_frame(id, name, port) + t, 9 + name.len() as int) == port,
{
    let s = domain_frame(id, name, port) + t;
    let n = name.len() as int;
    assert((name.len() as u32) == name.len());
    lemma_be32_roundtrip(id);
    lemma_be32_roundtrip(((name.len() as u32) + 2) as u32);
    lemma_be16_roundtrip(port);
    assert(s.subrange(1, 5) =~= be32(id));
    assert(s.subrange(5, 9) =~= be32(((name.len() as u32) + 2) as u32));
    assert(s.subrange(9 + n, 11 + n) =~= be16(port));
    lemma_be32_at_placed(s, 1, id);
    lemma_be32_at_placed(s, 5, ((name.len() as u32) + 2) as u32);
    lemma_be16_at_placed(s, 9 + n, port);
    assert(s.subrange(9, 9 + n) =~= name);
}

/// Appends the big-endian bytes of `v` to `out`.
pub fn push_be16(out: &mut Vec<u8>, v: u16)
    ensures
        final(out)@ == old(out)@ + be16(v),
{
    out.push((v / 256) as u8);
    out.push((v % 256) as u8);
    assert(final(out)@ =~= old(out)@ + be16(v));
}

/// Appends the big-endian bytes of `v` to `out`.
pub fn push_be32(out: &mut Vec<u8>, v: u32)
    ensures
        final(out)@ == old(out)@ + be32(v),
{
    out.push((v / 0x100_0000) as u8);
    out.push(((v / 0x1_0000) % 256) as u8);
    out.push(((v / 0x100) % 256) as u8);
    out.push((v % 256) as u8);
    assert(final(out)@ =~= old(out)@ + be32(v));
}

/// The bytes of `v` in network order, as written by `write_u16` on a stream.
pub fn be16_bytes(v: u16) -> (r: Vec<u8>)
    ensures
        r@ == be16(v),
{
    let mut r = Vec::new();
    push_be16(&mut r, v);
    assert(r@ =~= be16(v));
    r
}

/// The bytes of `v` in network order, as written by `write_u32` on a stream.
pub fn be32_bytes(v: u32) -> (r: Vec<u8>)
    ensures
        r@ == be32(v),
{
    let mut r = Vec::new();
    push_be32(&mut r, v);
    assert(r@ =~= be32(v));
    r
}

/// The big-endian `u16` in `buf` at `at`, as read by `read_u16` on a stream.
pub fn read_be16(buf: &[u8], at: usize) -> (r: u16)
    requires
        at + 2 <= buf@.len(),
    ensures
        r == be16_at(buf@, at as int),
{
    (buf[at] as u16) * 256 + (buf[at + 1] as u16)
}

/// The big-endian `u32` in `buf` at `at`, as read by `read_u32` on a stream.
pub fn read_be32(buf: &[u8], at: usize) -> (r: u32)
    requires
        at + 4 <= buf@.len(),
    ensures
        r == be32_at(buf@, at as int),
{
    (buf[at] as u32) * 0x100_0000 + (buf[at + 1] as u32) * 0x1_0000 + (buf[at + 2] as u32) * 0x100
        + (buf[at + 3] as u32)
}

/// Appends every byte of `src` to `out`.
pub fn push_all(out: &mut Vec<u8>, src: &[u8])
    ensures
        final(out)@ == old(out)@ + src@,
{
    let n = src.len();
    let mut i: usize = 0;
    while i < n
        invariant
            n == src@.len(),
            i <= n,
            out@ == old(out)@ + src@.subrange(0, i as int),
        decreases n - i,
    {
        out.push(src[i]);
        i = i + 1;
        assert(out@ =~= old(out)@ + src@.subrange(0, i as int));
    }
    assert(src@.subrange(0, n as int) =~= src@);
}

/// A fresh vector holding `buf[start..end]`.
pub fn copy_range(buf: &[u8], start: usize, end: usize) -> (r: Vec<u8>)
    requires
        start <= end <= buf@.len(),
    ensures
        r@ == buf@.subrange(start as int, end as int),
{
    let mut r: Vec<u8> = Vec::new();
    let mut i: usize = start;
    while i < end
        invariant
            start <= i <= end <= buf@.len(),
            r@ == buf@.subrange(start as int, i as int),
        decreases end - i,
    {
        r.push(buf[i]);
        i = i + 1;
        assert(r@ =~= buf@.subrange(start as int, i as int));
    }
    r
}

/// A frame made of an operation code and a port id.
pub open spec fn id_frame(op: u8, id: u32) -> Seq<u8> {
    seq![op] + be32(id)
}

/// A frame made of an operation code, a port id and a length-prefixed
/// payload. The length field holds the payload length cut to 32 bits.
pub open spec fn payload_frame(op: u8, id: u32, payload: Seq<u8>) -> Seq<u8> {
    seq![op] + be32(id) + be32(payload.len() as u32) + payload
}

/// The frame that asks the server to connect port `id` to host `name` at
/// `port`: the length field counts the name and the two port bytes.
pub open spec fn domain_frame(id: u32, name: Seq<u8>, port: u16) -> Seq<u8> {
    seq![cs::CONNECT_DOMAIN_NAME] + be32(id) + be32(((name.len() as u32) + 2) as u32) + name
        + be16(port)
}

/// Whether a domain name of `len` bytes can be framed: its length field,
/// the length cut to 32 bits plus two, must not overflow a `u32`.
pub open spec fn domain_len_fits(len: nat) -> bool {
    (len as u32) <= u32::MAX - 2
}

/// Encodes a frame made of an operation code and a port id.
pub fn encode_id_frame(op: u8, id: u32) -> (r: Vec<u8>)
    ensures
        r@ == id_frame(op, id),
{
    let mut r = Vec::new();
    r.push(op);
    push_be32(&mut r, id);
    assert(r@ =~= id_frame(op, id));
    r
}

/// Encodes a frame made of an operation code, a port id and a payload.
pub fn encode_payload_frame(op: u8, id: u32, payload: &[u8]) -> (r: Vec<u8>)
    ensures
        r@ == payload_frame(op, id, payload@),
{
    let mut r = Vec::new();
    r.push(op);
    push_be32(&mut r, id);
    push_be32(&mut r, payload.len() as u32);
    push_all(&mut r, payload);
    assert(r@ =~= payload_frame(op, id, payload@));
    r
}

/// Encodes the frame that asks for a connection to a named host.
pub fn encode_domain_frame(id: u32, name: &[u8], port: u16) -> (r: Vec<u8>)
    requires
        domain_len_fits(name@.len()),
    ensures
        r@ == domain_frame(id, name@, port),
{
    let mut r = Vec::new();
    r.push(cs::CONNECT_DOMAIN_NAME);
    push_be32(&mut r, id);
    push_be32(&mut r, (name.len() as u32) + 2);
    push_all(&mut r, name);
    push_be16(&mut r, port);
    assert(r@ =~= domain_frame(id, name@, port));
    r
}

} // verus!
