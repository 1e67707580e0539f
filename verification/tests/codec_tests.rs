//! Wire codec and checksum behaviour on concrete values.

use netstack::arp;
use netstack::err::NetError;
use netstack::ether;
use netstack::ether::MacAddr;
use netstack::ip;
use netstack::udp;
use netstack::ip::IpAddr;
use netstack::tcp::wire;
use netstack::util;

#[test]
fn checksum_of_zeros_is_all_ones() {
    assert_eq!(util::checksum(&[0, 0, 0, 0]), 0xffff);
}

#[test]
fn checksum_known_value() {
    // one word 0x0102, one word 0x0304: sum 0x0406, complement 0xfbf9
    assert_eq!(util::checksum(&[0x01, 0x02, 0x03, 0x04]), 0xfbf9);
}

#[test]
fn checksum_odd_trailing_byte_counts_high() {
    // a single byte 0x01 counts as the word 0x0100
    assert_eq!(util::checksum(&[0x01]), !0x0100u16);
}

#[test]
fn appended_checksum_verifies() {
    let body = [0x45u8, 0x00, 0x12, 0x34, 0xab, 0xcd];
    let c = util::checksum(&body);
    let mut whole = body.to_vec();
    whole.push((c / 256) as u8);
    whole.push((c % 256) as u8);
    assert!(util::verify_checksum(&whole));
}

#[test]
fn verify_checksum_is_checksum_zero() {
    let data = [0x45u8, 0x00, 0x12, 0x34];
    assert_eq!(util::verify_checksum(&data), util::checksum(&data) == 0);
    let mut whole = data.to_vec();
    let c = util::checksum(&data);
    whole.push((c / 256) as u8);
    whole.push((c % 256) as u8);
    assert_eq!(util::verify_checksum(&whole), util::checksum(&whole) == 0);
    assert_eq!(util::checksum(&whole), 0);
}

#[test]
fn byte_order_helpers_swap() {
    assert_eq!(util::hton16(0x1234), 0x3412);
    assert_eq!(util::ntoh16(0x3412), 0x1234);
    assert_eq!(util::hton32(0x12345678), 0x78563412);
    assert_eq!(util::ntoh32(0x78563412), 0x12345678);
}

#[test]
fn tcp_packet_parse_valid() {
    let data = [
        0x00, 0x50, // src port = 80
        0x04, 0xd2, // dst port = 1234
        0x00, 0x00, 0x03, 0xe8, // seq = 1000
        0x00, 0x00, 0x07, 0xd0, // ack = 2000
        0x50, 0x12, // data offset = 5, flags = SYN+ACK
        0x20, 0x00, // window = 8192
        0x00, 0x00, // checksum
        0x00, 0x00, // urgent pointer
    ];
    let packet = wire::Packet::new_checked(&data).unwrap();
    assert_eq!(packet.src_port(), 80);
    assert_eq!(packet.dst_port(), 1234);
    assert_eq!(packet.seq_number(), 1000);
    assert_eq!(packet.ack_number(), 2000);
    assert_eq!(packet.flags() & wire::FLG_SYN, wire::FLG_SYN);
    assert_eq!(packet.flags() & wire::FLG_ACK, wire::FLG_ACK);
    assert_eq!(packet.window_len(), 8192);
    assert_eq!(packet.header_len(), 20);
}

#[test]
fn tcp_packet_too_short() {
    let data = [0x00; 10];
    let result = wire::Packet::new_checked(&data);
    assert!(matches!(result, Err(NetError::PacketTooShort)));
}

#[test]
fn tcp_packet_invalid_header_len() {
    let mut data = [0u8; 20];
    data[12] = 4u8 << 4; // header length 16 bytes, below the fixed header
    let result = wire::Packet::new_checked(&data);
    assert!(matches!(result, Err(NetError::InvalidHeaderLen)));
}

#[test]
fn tcp_packet_mut_roundtrip() {
    let mut packet = wire::PacketMut::new_unchecked(vec![0u8; 20]);
    packet.set_src_port(80);
    packet.set_dst_port(1234);
    packet.set_seq_number(1000);
    packet.set_ack_number(2000);
    packet.set_header_len(20);
    packet.set_flags(wire::FLG_SYN | wire::FLG_ACK);
    packet.set_window_len(8192);
    packet.set_checksum(0);
    packet.set_urg_ptr(0);
    let buffer = packet.into_bytes();
    let read = wire::Packet::new_checked(&buffer).unwrap();
    assert_eq!(read.src_port(), 80);
    assert_eq!(read.dst_port(), 1234);
    assert_eq!(read.seq_number(), 1000);
    assert_eq!(read.ack_number(), 2000);
}

#[test]
fn tcp_checksum_fill_then_verify() {
    let src_ip = IpAddr(0x0a000001);
    let dst_ip = IpAddr(0x0a000002);
    let mut packet = wire::PacketMut::new_unchecked(vec![0u8; 20]);
    packet.set_src_port(12345);
    packet.set_dst_port(80);
    packet.set_seq_number(1000);
    packet.set_ack_number(0);
    packet.set_header_len(20);
    packet.set_flags(wire::FLG_SYN);
    packet.set_window_len(65535);
    packet.set_urg_ptr(0);
    packet.fill_checksum(src_ip, dst_ip);
    let buffer = packet.into_bytes();
    let read = wire::Packet::new_checked(&buffer).unwrap();
    assert!(read.verify_checksum(src_ip, dst_ip));
}

#[test]
fn arp_packet_too_short() {
    let data = [0u8; 27];
    let err = netstack::arp::Packet::new_checked(&data).err().unwrap();
    assert_eq!(err, NetError::PacketTooShort);
}

#[test]
fn arp_packet_build_then_read() {
    let sha = MacAddr([2, 0, 0, 0, 0, 2]);
    let tha = MacAddr([2, 0, 0, 0, 0, 1]);
    let bytes = arp::build_arp_packet(
        arp::ARP_OP_REQUEST,
        sha,
        IpAddr(0xc0000202),
        tha,
        IpAddr(0xc0000201),
    );
    let pkt = arp::Packet::new_checked(&bytes).unwrap();
    assert_eq!(pkt.htype(), arp::ARP_HTYPE_ETHERNET);
    assert_eq!(pkt.ptype(), arp::ARP_PTYPE_IPV4);
    assert_eq!(pkt.hlen(), 6);
    assert_eq!(pkt.plen(), 4);
    assert_eq!(pkt.oper(), arp::ARP_OP_REQUEST);
    assert_eq!(pkt.sha(), [2, 0, 0, 0, 0, 2]);
    assert_eq!(pkt.spa(), 0xc0000202);
    assert_eq!(pkt.tha(), [2, 0, 0, 0, 0, 1]);
    assert_eq!(pkt.tpa(), 0xc0000201);
}

#[test]
fn eth_header_roundtrip() {
    let frame = ether::build_eth_frame(
        ether::MacAddr([1, 2, 3, 4, 5, 6]),
        ether::MacAddr([7, 8, 9, 10, 11, 12]),
        ether::ETHERTYPE_IPV4,
        &[0xaa, 0xbb],
    );
    assert_eq!(frame.len(), 16);
    let header = ether::parse_eth_header(&frame).unwrap();
    assert_eq!(header.dst, [1, 2, 3, 4, 5, 6]);
    assert_eq!(header.src, [7, 8, 9, 10, 11, 12]);
    assert_eq!(header.ethertype, ether::ETHERTYPE_IPV4);
}

#[test]
fn ipv4_build_and_validate() {
    let src = IpAddr(0x0a000001);
    let dst = IpAddr(0x0a000002);
    let packet = ip::build_ipv4_packet(src, dst, ip::PROTO_UDP, &[1, 2, 3]).unwrap();
    assert_eq!(packet.len(), 23);
    let header = ip::ip_validate(&packet).unwrap();
    assert_eq!(header.version(), 4);
    assert_eq!(header.ihl(), 5);
    assert_eq!(header.header_len(), 20);
    assert_eq!(header.total_len, 23);
    assert_eq!(header.ttl, 64);
    assert_eq!(header.protocol, ip::PROTO_UDP);
    assert_eq!(header.src, 0x0a000001);
    assert_eq!(header.dst, 0x0a000002);
    assert!(util::verify_checksum(&packet[..20]));
}

#[test]
fn ipv4_validate_rejects_bad_version() {
    let mut data = vec![0u8; 20];
    data[0] = 0x55; // version 5
    assert!(matches!(
        netstack::ip::ip_validate(&data),
        Err(NetError::InvalidVersion)
    ));
}

#[test]
fn ipv4_validate_rejects_short_buffer() {
    let data = vec![0u8; 19];
    assert!(matches!(
        netstack::ip::ip_validate(&data),
        Err(NetError::PacketTooShort)
    ));
}

#[test]
fn ipv4_validate_rejects_bad_checksum() {
    let src = IpAddr(0x0a000001);
    let dst = IpAddr(0x0a000002);
    let mut packet = ip::build_ipv4_packet(src, dst, ip::PROTO_UDP, &[]).unwrap();
    packet[10] ^= 0xff;
    assert!(matches!(ip::ip_validate(&packet), Err(NetError::ChecksumError)));
}

#[test]
fn ipv4_validate_rejects_truncation() {
    let src = IpAddr(0x0a000001);
    let dst = IpAddr(0x0a000002);
    let packet = ip::build_ipv4_packet(src, dst, ip::PROTO_UDP, &[1, 2, 3, 4]).unwrap();
    // drop the last byte: the declared total length exceeds the buffer
    assert!(matches!(
        ip::ip_validate(&packet[..packet.len() - 1]),
        Err(NetError::PacketTruncated)
    ));
}

#[test]
fn icmp_echo_build_verifies() {
    let packet = netstack::icmp::build_icmp_echo(8, 0x1234, 1, b"hi");
    assert_eq!(packet.len(), 10);
    assert_eq!(packet[0], 8);
    assert!(util::verify_checksum(&packet));
    assert_eq!(&packet[8..], b"hi");
}

#[test]
fn udp_datagram_build_fields() {
    let src = IpAddr(0x0a000001);
    let dst = IpAddr(0x0a000002);
    let packet = udp::build_udp_datagram(src, 49152, dst, 53, &[1, 2, 3]).unwrap();
    assert_eq!(packet.len(), 11);
    assert_eq!(util::read_be16(&packet, 0), 49152);
    assert_eq!(util::read_be16(&packet, 2), 53);
    assert_eq!(util::read_be16(&packet, 4), 11);
    assert_ne!(util::read_be16(&packet, 6), 0);
    // and the filled checksum verifies over the pseudo-header
    assert!(udp::verify_udp_checksum(src, dst, &packet));
}

#[test]
fn parse_ip_str_accepts_dotted_quads() {
    assert_eq!(ip::parse_ip_str("10.0.0.1").unwrap(), IpAddr(0x0a000001));
    assert_eq!(ip::parse_ip_str("255.255.255.255").unwrap(), IpAddr(0xffffffff));
    assert_eq!(ip::parse_ip_str("0.0.0.0").unwrap(), IpAddr(0));
    assert_eq!(ip::parse_ip_str("127.0.0.1").unwrap(), IpAddr::loopback());
}

#[test]
fn parse_ip_str_rejects_malformed() {
    assert!(matches!(ip::parse_ip_str("1.2.3"), Err(NetError::InvalidAddress)));
    assert!(matches!(ip::parse_ip_str("1.2.3.4.5"), Err(NetError::InvalidAddress)));
    assert!(matches!(ip::parse_ip_str("1.2.3.256"), Err(NetError::InvalidAddress)));
    assert!(matches!(ip::parse_ip_str("a.b.c.d"), Err(NetError::InvalidAddress)));
    assert!(matches!(ip::parse_ip_str(""), Err(NetError::InvalidAddress)));
    assert!(matches!(ip::parse_ip_str("1..2.3"), Err(NetError::InvalidAddress)));
}

#[test]
fn ip_addr_bytes() {
    let a = IpAddr::new(192, 0, 2, 2);
    assert_eq!(a.0, 0xc0000202);
    assert_eq!(a.to_bytes(), [192, 0, 2, 2]);
}
