use simple_proxy::wire::{
    be16_bytes, be32_bytes, read_be16, read_be32, encode_id_frame, encode_payload_frame,
    encode_domain_frame, copy_range, push_all,
};

#[test]
fn be16_bytes_are_big_endian() {
    assert_eq!(be16_bytes(0x01bb), vec![0x01, 0xbb]);
    assert_eq!(be16_bytes(0), vec![0, 0]);
    assert_eq!(be16_bytes(0xffff), vec![0xff, 0xff]);
}

#[test]
fn be32_bytes_are_big_endian() {
    assert_eq!(be32_bytes(0xD8ECA283), vec![0xD8, 0xEC, 0xA2, 0x83]);
    assert_eq!(be32_bytes(1), vec![0, 0, 0, 1]);
}

#[test]
fn big_endian_values_read_back() {
    let b = be32_bytes(0xD8ECA283);
    assert_eq!(read_be32(&b, 0), 0xD8ECA283);
    let b = be16_bytes(443);
    assert_eq!(read_be16(&b, 0), 443);
    let buf = [9u8, 0x12, 0x34, 0x56, 0x78];
    assert_eq!(read_be32(&buf, 1), 0x12345678);
    assert_eq!(read_be16(&buf, 3), 0x5678);
}

#[test]
fn id_frame_bytes() {
    assert_eq!(encode_id_frame(2, 0x01020304), vec![2, 1, 2, 3, 4]);
}

#[test]
fn payload_frame_bytes() {
    assert_eq!(
        encode_payload_frame(7, 5, &[0xaa, 0xbb, 0xcc]),
        vec![7, 0, 0, 0, 5, 0, 0, 0, 3, 0xaa, 0xbb, 0xcc]
    );
    assert_eq!(encode_payload_frame(7, 5, &[]), vec![7, 0, 0, 0, 5, 0, 0, 0, 0]);
}

#[test]
fn domain_frame_counts_port_bytes() {
    assert_eq!(
        encode_domain_frame(3, b"a.io", 443),
        vec![6, 0, 0, 0, 3, 0, 0, 0, 6, b'a', b'.', b'i', b'o', 0x01, 0xbb]
    );
}

#[test]
fn copy_and_append() {
    let buf = [1u8, 2, 3, 4, 5];
    assert_eq!(copy_range(&buf, 1, 4), vec![2, 3, 4]);
    assert_eq!(copy_range(&buf, 2, 2), Vec::<u8>::new());
    let mut out = vec![9u8];
    push_all(&mut out, &buf[..2]);
    assert_eq!(out, vec![9, 1, 2]);
}
