//! The DNS codec on concrete values: query building, name decoding with
//! compression, and the answer scan.

use netstack::dns;
use netstack::err::NetError;
use netstack::ip::IpAddr;

#[test]
fn query_for_a_name_has_the_wire_shape() {
    let q = dns::build_dns_query("example.com", 0x1234);
    // header: id, recursion-desired flags, one question
    assert_eq!(&q[..12], &[0x12, 0x34, 0x01, 0x00, 0x00, 0x01, 0, 0, 0, 0, 0, 0]);
    // name: 7"example" 3"com" 0, then type A, class IN
    let mut name = vec![7u8];
    name.extend_from_slice(b"example");
    name.push(3);
    name.extend_from_slice(b"com");
    name.push(0);
    assert_eq!(&q[12..12 + name.len()], &name[..]);
    assert_eq!(&q[12 + name.len()..], &[0, 1, 0, 1]);
}

#[test]
fn empty_labels_are_skipped() {
    let q = dns::build_dns_query(".a..b.", 7);
    assert_eq!(&q[12..18], &[1, b'a', 1, b'b', 0, 0]);
}

#[test]
fn header_round_trips() {
    let h = dns::DnsHeader::new_query(0xbeef);
    let q = dns::build_dns_query("x", 0xbeef);
    let back = dns::read_dns_header(&q).unwrap();
    assert_eq!(back, h);
}

#[test]
fn decode_follows_compression_pointers() {
    // a name at offset 0, and at offset 13 a pointer back to it
    let mut msg = vec![3u8, b'f', b'o', b'o', 3, b'b', b'a', b'r', 0];
    msg.extend_from_slice(&[0, 0, 0, 0]); // padding
    msg.extend_from_slice(&[0xc0, 0x00]); // pointer to offset 0
    let (name, next) = dns::decode_domain_name(&msg, 13).unwrap();
    assert_eq!(name, b"foo.bar");
    assert_eq!(next, 15);
    let (direct, after) = dns::decode_domain_name(&msg, 0).unwrap();
    assert_eq!(direct, b"foo.bar");
    assert_eq!(after, 9);
}

#[test]
fn decode_rejects_pointer_loops() {
    let msg = [0xc0u8, 0x00];
    assert!(matches!(
        dns::decode_domain_name(&msg, 0),
        Err(NetError::InvalidLength)
    ));
}

fn response_with_one_a_record() -> Vec<u8> {
    let mut msg = vec![
        0x12, 0x34, // id
        0x81, 0x80, // response flags
        0x00, 0x01, // one question
        0x00, 0x01, // one answer
        0x00, 0x00, 0x00, 0x00, // no authority, no additional
    ];
    // question: 1"a" 3"com" 0, type A, class IN
    msg.extend_from_slice(&[1, b'a', 3, b'c', b'o', b'm', 0, 0, 1, 0, 1]);
    // answer: name as pointer to the question, type A, class IN,
    // ttl 60, rdlength 4, address 93.184.216.34
    msg.extend_from_slice(&[0xc0, 0x0c, 0, 1, 0, 1, 0, 0, 0, 60, 0, 4, 93, 184, 216, 34]);
    msg
}

#[test]
fn response_yields_the_a_record() {
    let msg = response_with_one_a_record();
    let addr = dns::parse_dns_response(&msg).unwrap();
    assert_eq!(addr, IpAddr::new(93, 184, 216, 34));
}

#[test]
fn response_without_answers_is_no_such_node() {
    let mut msg = response_with_one_a_record();
    msg[6] = 0;
    msg[7] = 0;
    assert!(matches!(
        dns::parse_dns_response(&msg),
        Err(NetError::NoSuchNode)
    ));
}

#[test]
fn short_response_is_too_short() {
    assert!(matches!(
        dns::parse_dns_response(&[0u8; 11]),
        Err(NetError::PacketTooShort)
    ));
}
