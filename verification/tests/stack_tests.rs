//! End-to-end scenarios through the whole stack: loopback echo, ARP
//! resolution, longest-prefix routing, UDP bind rules, and the socket
//! slot tables.

use netstack::arp;
use netstack::device::{NetDevice, NetDeviceConfig, NetDeviceFlags, NetDeviceType};
use netstack::err::NetError;
use netstack::ether;
use netstack::ether::MacAddr;
use netstack::ip::IpAddr;
use netstack::route::Route;
use netstack::socket::{SocketHandle, SocketSet};
use netstack::stack::NetStack;
use netstack::tcp::socket::IpEndpoint;
use netstack::tcp::State;
use netstack::udp::UdpEndpoint;
use netstack::util;
use netstack::interface::NetInterface;
use netstack::protocol::ProtocolType;
use netstack::trace::{Flags, TRACE_ARP, TRACE_TCP};

fn stack_with_loopback() -> NetStack {
    let mut stack = NetStack::new();
    stack.ip_init();
    stack.loopback_init().unwrap();
    stack.loopback_setup().unwrap();
    stack
}

fn add_ethernet_device(stack: &mut NetStack, name: &str, mac: [u8; 6]) -> usize {
    let mut dev = NetDevice::new(NetDeviceConfig {
        name: name.to_string(),
        dev_type: NetDeviceType::Ethernet,
        mtu: 1500,
        flags: NetDeviceFlags(netstack::device::FLAG_BROADCAST),
        header_len: 14,
        addr_len: 6,
        hw_addr: MacAddr(mac),
    });
    dev.open();
    stack.net_device_register(dev).unwrap()
}

#[test]
fn loopback_echo_round_trip() {
    let mut stack = stack_with_loopback();
    let handle = stack.icmp_socket_alloc().unwrap();

    stack
        .icmp_echo_request(IpAddr::loopback(), 0x1234, 1, b"hi")
        .unwrap();
    // one round delivers the request to our own ingress, which queues
    // the reply; the second round delivers the reply
    stack.poll().unwrap();
    stack.poll().unwrap();

    // the raw socket saw the request first, then the reply
    let mut buf = vec![0u8; 64];
    let (n1, src1) = stack.icmp_socket_recvfrom(handle, &mut buf).unwrap();
    assert_eq!(buf[0], 8);
    assert_eq!(src1, IpAddr::loopback());
    assert!(util::verify_checksum(&buf[..n1]));

    let (n2, src2) = stack.icmp_socket_recvfrom(handle, &mut buf).unwrap();
    assert_eq!(src2, IpAddr::loopback());
    let reply = &buf[..n2];
    assert_eq!(reply[0], 0); // echo reply
    assert_eq!(util::read_be16(reply, 4), 0x1234);
    assert_eq!(util::read_be16(reply, 6), 1);
    assert_eq!(&reply[8..10], b"hi");
    assert!(util::verify_checksum(reply));

    // and the reply was recorded for the waiting caller
    let recorded = stack.icmp_recv_reply(0x1234, 1000).unwrap();
    assert_eq!(recorded.id, 0x1234);
    assert_eq!(recorded.seq, 1);
    assert_eq!(recorded.payload, b"hi");
}

#[test]
fn empty_icmp_socket_would_block() {
    let mut stack = stack_with_loopback();
    let handle = stack.icmp_socket_alloc().unwrap();
    let mut buf = vec![0u8; 8];
    assert!(matches!(
        stack.icmp_socket_recvfrom(handle, &mut buf),
        Err(NetError::WouldBlock)
    ));
}

#[test]
fn arp_resolve_request_reply_then_cache_hit() {
    let mut stack = NetStack::new();
    stack.ip_init();
    let dev_index = add_ethernet_device(&mut stack, "eth0", [2, 0, 0, 0, 0, 2]);
    stack
        .net_interface_setup("eth0", IpAddr::new(192, 0, 2, 2), IpAddr::new(255, 255, 255, 0))
        .unwrap();

    // a miss broadcasts one request and reports Timeout for now
    let target = IpAddr::new(192, 0, 2, 1);
    let sender = IpAddr::new(192, 0, 2, 2);
    let r = stack.resolve("eth0", target, sender, 50);
    assert!(matches!(r, Err(NetError::Timeout)));
    assert_eq!(stack.tx_frames.len(), 1);
    let frame = &stack.tx_frames[0];
    assert_eq!(frame.dev_index, dev_index);
    let header = ether::parse_eth_header(&frame.bytes).unwrap();
    assert_eq!(header.dst, [0xff; 6]);
    assert_eq!(header.ethertype, ether::ETHERTYPE_ARP);
    let request = arp::Packet::new_checked(&frame.bytes[14..]).unwrap();
    assert_eq!(request.oper(), arp::ARP_OP_REQUEST);
    assert_eq!(request.tpa(), target.0);

    // the peer answers; its reply reaches us as an Ethernet frame
    let reply = arp::build_arp_packet(
        arp::ARP_OP_REPLY,
        MacAddr([2, 0, 0, 0, 0, 1]),
        target,
        MacAddr([2, 0, 0, 0, 0, 2]),
        sender,
    );
    let reply_frame = ether::build_eth_frame(
        MacAddr([2, 0, 0, 0, 0, 2]),
        MacAddr([2, 0, 0, 0, 0, 1]),
        ether::ETHERTYPE_ARP,
        &reply,
    );
    stack.ethernet_input(dev_index, &reply_frame).unwrap();

    // now the cache answers, and no further frame is emitted
    let frames_before = stack.tx_frames.len();
    let mac = stack.resolve("eth0", target, sender, 50).unwrap();
    assert_eq!(mac, MacAddr([2, 0, 0, 0, 0, 1]));
    assert_eq!(stack.tx_frames.len(), frames_before);
}

#[test]
fn arp_request_for_our_address_draws_reply() {
    let mut stack = NetStack::new();
    let dev_index = add_ethernet_device(&mut stack, "eth0", [2, 0, 0, 0, 0, 2]);
    stack
        .net_interface_setup("eth0", IpAddr::new(192, 0, 2, 2), IpAddr::new(255, 255, 255, 0))
        .unwrap();

    let request = arp::build_arp_packet(
        arp::ARP_OP_REQUEST,
        MacAddr([2, 0, 0, 0, 0, 1]),
        IpAddr::new(192, 0, 2, 1),
        MacAddr([0; 6]),
        IpAddr::new(192, 0, 2, 2),
    );
    stack.arp_input(dev_index, &request).unwrap();

    assert_eq!(stack.tx_frames.len(), 1);
    let frame = &stack.tx_frames[0];
    let reply = arp::Packet::new_checked(&frame.bytes[14..]).unwrap();
    assert_eq!(reply.oper(), arp::ARP_OP_REPLY);
    assert_eq!(reply.spa(), IpAddr::new(192, 0, 2, 2).0);
    assert_eq!(reply.sha(), [2, 0, 0, 0, 0, 2]);
    assert_eq!(reply.tpa(), IpAddr::new(192, 0, 2, 1).0);
}

#[test]
fn longest_prefix_route_wins() {
    let mut stack = NetStack::new();
    add_ethernet_device(&mut stack, "eth0", [2, 0, 0, 0, 0, 2]);
    add_ethernet_device(&mut stack, "eth1", [2, 0, 0, 0, 0, 3]);
    stack
        .add_route(Route {
            dest: IpAddr::new(10, 0, 0, 0),
            mask: IpAddr::new(255, 0, 0, 0),
            gateway: None,
            dev: "eth0".to_string(),
        })
        .unwrap();
    stack
        .add_route(Route {
            dest: IpAddr::new(10, 1, 0, 0),
            mask: IpAddr::new(255, 255, 0, 0),
            gateway: None,
            dev: "eth1".to_string(),
        })
        .unwrap();

    let via = stack.lookup(IpAddr::new(10, 1, 2, 3)).unwrap();
    assert_eq!(via.dev, "eth1");
    let via2 = stack.lookup(IpAddr::new(10, 2, 3, 4)).unwrap();
    assert_eq!(via2.dev, "eth0");
    assert!(stack.lookup(IpAddr::new(11, 0, 0, 1)).is_none());
}

#[test]
fn route_table_fills_up() {
    let mut stack = NetStack::new();
    for i in 0..8u8 {
        stack
            .add_route(Route {
                dest: IpAddr::new(10, i, 0, 0),
                mask: IpAddr::new(255, 255, 0, 0),
                gateway: None,
                dev: "eth0".to_string(),
            })
            .unwrap();
    }
    let r = stack.add_route(Route {
        dest: IpAddr::new(10, 9, 0, 0),
        mask: IpAddr::new(255, 255, 0, 0),
        gateway: None,
        dev: "eth0".to_string(),
    });
    assert!(matches!(r, Err(NetError::StorageFull)));
}

#[test]
fn udp_bind_conflict_and_ephemeral_ports() {
    let mut stack = NetStack::new();
    let a = stack.udp_pcb_alloc().unwrap();
    let b = stack.udp_pcb_alloc().unwrap();
    let c = stack.udp_pcb_alloc().unwrap();

    stack.udp_bind(a, UdpEndpoint::any(1000)).unwrap();
    let conflict = stack.udp_bind(b, UdpEndpoint::any(1000));
    assert!(matches!(conflict, Err(NetError::PortInUse)));

    let first = stack.udp_bind(c, UdpEndpoint::any(0)).unwrap();
    let second = stack.udp_bind(c, UdpEndpoint::any(0)).unwrap();
    assert_ne!(first.port, second.port);
    assert!(first.port >= 49152);
    assert!(second.port >= 49152);
}

#[test]
fn udp_loopback_datagram_delivery() {
    let mut stack = stack_with_loopback();
    let sock = stack.udp_pcb_alloc().unwrap();
    stack.udp_bind(sock, UdpEndpoint::any(2000)).unwrap();

    let dst = UdpEndpoint::new(IpAddr::loopback(), 2000);
    let src = UdpEndpoint::new(IpAddr::loopback(), 49200);
    stack.udp_output(src, dst, b"ping").unwrap();
    stack.poll().unwrap();

    let mut buf = vec![0u8; 16];
    let (n, foreign) = stack.udp_recvfrom(sock, &mut buf).unwrap();
    assert_eq!(n, 4);
    assert_eq!(&buf[..4], b"ping");
    assert_eq!(foreign.addr, IpAddr::loopback());
    assert_eq!(foreign.port, 49200);
    assert!(matches!(
        stack.udp_recvfrom(sock, &mut buf),
        Err(NetError::WouldBlock)
    ));
}

#[test]
fn udp_release_then_release_again_fails() {
    let mut stack = NetStack::new();
    let sock = stack.udp_pcb_alloc().unwrap();
    stack.udp_pcb_release(sock).unwrap();
    assert!(matches!(
        stack.udp_pcb_release(sock),
        Err(NetError::InvalidSocketIndex)
    ));
}

#[test]
fn socket_handles_unique_until_freed() {
    let mut sockets: SocketSet<u32> = SocketSet::new(4);
    let h1 = sockets.allocate(100).unwrap();
    let h2 = sockets.allocate(200).unwrap();
    assert_ne!(h1.index(), h2.index());
    assert_eq!(*sockets.get(h1).unwrap(), 100);
    assert_eq!(*sockets.get(h2).unwrap(), 200);

    // after a free the same index may come back
    sockets.free(h1).unwrap();
    assert!(sockets.get(h1).is_err());
    let h3 = sockets.allocate(300).unwrap();
    assert_eq!(h3.index(), h1.index());
}

#[test]
fn socket_set_exhaustion_and_free_errors() {
    let mut sockets: SocketSet<u32> = SocketSet::new(2);
    sockets.allocate(1).unwrap();
    sockets.allocate(2).unwrap();
    assert!(matches!(
        sockets.allocate(3),
        Err(NetError::NoSocketAvailable)
    ));
    assert!(matches!(
        sockets.free(SocketHandle::new(7)),
        Err(NetError::InvalidSocketIndex)
    ));
    assert!(matches!(
        sockets.get(SocketHandle::new(7)),
        Err(NetError::InvalidSocketIndex)
    ));
}

#[test]
fn socket_set_iter_lists_occupied() {
    let mut sockets: SocketSet<u32> = SocketSet::new(4);
    sockets.allocate(100).unwrap();
    let h = sockets.allocate(200).unwrap();
    sockets.allocate(300).unwrap();
    sockets.free(h).unwrap();
    let handles = sockets.iter();
    assert_eq!(handles.len(), 2);
    assert_eq!(handles[0].index(), 0);
    assert_eq!(handles[1].index(), 2);
}

#[test]
fn device_open_close_flags() {
    let mut dev = NetDevice::new(NetDeviceConfig {
        name: "eth9".to_string(),
        dev_type: NetDeviceType::Ethernet,
        mtu: 1500,
        flags: NetDeviceFlags(netstack::device::FLAG_BROADCAST),
        header_len: 14,
        addr_len: 6,
        hw_addr: MacAddr([1; 6]),
    });
    assert!(!dev.flags().is_up());
    dev.open();
    assert!(dev.flags().is_up());
    assert!(dev.flags().is_running());
    assert!(dev
        .flags()
        .contains(NetDeviceFlags(netstack::device::FLAG_BROADCAST)));
    dev.close();
    assert!(!dev.flags().is_running());
    assert!(dev.flags().is_up());
}

#[test]
fn ethernet_output_requires_up() {
    let mut stack = NetStack::new();
    let mut dev = NetDevice::new(NetDeviceConfig {
        name: "eth0".to_string(),
        dev_type: NetDeviceType::Ethernet,
        mtu: 1500,
        flags: NetDeviceFlags(0),
        header_len: 14,
        addr_len: 6,
        hw_addr: MacAddr([1; 6]),
    });
    dev.close();
    let index = stack.net_device_register(dev).unwrap();
    let r = stack.ethernet_output(index, MacAddr([2; 6]), 0x0800, &[1, 2, 3]);
    assert!(matches!(r, Err(NetError::NotConnected)));
}

#[test]
fn unknown_ethertype_rejected() {
    let mut stack = NetStack::new();
    let index = add_ethernet_device(&mut stack, "eth0", [1; 6]);
    let frame = ether::build_eth_frame(MacAddr([2; 6]), MacAddr([1; 6]), 0x1234, &[0; 4]);
    assert!(matches!(
        stack.ethernet_input(index, &frame),
        Err(NetError::UnsupportedProtocol)
    ));
}

#[test]
fn tcp_connection_over_loopback() {
    let mut stack = stack_with_loopback();
    stack.tick(0, 0);

    // a listener on every address, port 80
    let listener = stack.tcp_socket_alloc().unwrap();
    stack
        .tcp_listen(listener, IpEndpoint::new(IpAddr(0), 80))
        .unwrap();

    // an active open to ourselves
    let client = stack.tcp_socket_alloc().unwrap();
    stack
        .tcp_connect(
            client,
            IpEndpoint::new(IpAddr(0), 0),
            IpEndpoint::new(IpAddr::loopback(), 80),
        )
        .unwrap();

    // SYN, SYN+ACK and ACK each travel one loopback round
    stack.poll_if_pending(8).unwrap();

    assert_eq!(
        stack.tcp.socket_get(client).unwrap().state(),
        State::Established
    );
    let child = stack.tcp_socket_accept(listener).unwrap();
    assert_eq!(
        stack.tcp.socket_get(child).unwrap().state(),
        State::Established
    );

    // data both ways
    let sent = stack.tcp_send(client, b"hello").unwrap();
    assert_eq!(sent, 5);
    stack.poll_if_pending(8).unwrap();
    let mut buf = vec![0u8; 32];
    let n = stack.tcp_recv(child, &mut buf).unwrap();
    assert_eq!(n, 5);
    assert_eq!(&buf[..5], b"hello");

    let sent_back = stack.tcp_send(child, b"world!").unwrap();
    assert_eq!(sent_back, 6);
    stack.poll_if_pending(8).unwrap();
    let n2 = stack.tcp_recv(client, &mut buf).unwrap();
    assert_eq!(n2, 6);
    assert_eq!(&buf[..6], b"world!");

    // passive close: the client's FIN drives the child to CLOSE-WAIT
    stack.tcp_close(client).unwrap();
    stack.poll_if_pending(8).unwrap();
    assert_eq!(
        stack.tcp.socket_get(child).unwrap().state(),
        State::CloseWait
    );
    stack.tcp_close(child).unwrap();
    stack.poll_if_pending(8).unwrap();
    assert_eq!(
        stack.tcp.socket_get(child).unwrap().state(),
        State::Closed
    );
}

#[test]
fn udp_input_error_cases() {
    let mut stack = NetStack::new();
    let src = IpAddr::new(10, 0, 0, 1);
    let dst = IpAddr::new(10, 0, 0, 2);

    // too short for a header
    assert!(matches!(
        stack.udp.udp_input(src, dst, &[0u8; 7]),
        Err(NetError::PacketTooShort)
    ));

    // declared length below the header size
    let mut short = vec![0u8; 12];
    short[4] = 0;
    short[5] = 4;
    assert!(matches!(
        stack.udp.udp_input(src, dst, &short),
        Err(NetError::InvalidLength)
    ));

    // a fine datagram, but nobody listens
    let dgram = netstack::udp::build_udp_datagram(src, 1111, dst, 2222, b"x").unwrap();
    assert!(matches!(
        stack.udp.udp_input(src, dst, &dgram),
        Err(NetError::NoMatchingSocket)
    ));
}

#[test]
fn udp_bind_before_alloc_is_invalid_state() {
    let mut stack = NetStack::new();
    assert!(matches!(
        stack.udp_bind(3, UdpEndpoint::any(1000)),
        Err(NetError::InvalidSocketState)
    ));
    assert!(matches!(
        stack.udp_bind(99, UdpEndpoint::any(1000)),
        Err(NetError::InvalidSocketIndex)
    ));
}

#[test]
fn routed_egress_without_route_is_no_such_node() {
    let mut stack = NetStack::new();
    let r = stack.ip_output_route(IpAddr::new(10, 0, 0, 1), 17, &[1, 2, 3]);
    assert!(matches!(r, Err(NetError::NoSuchNode)));
}

#[test]
fn oversized_ip_payload_is_too_large() {
    let payload = vec![0u8; 65536];
    let r = netstack::ip::build_ipv4_packet(
        IpAddr::new(10, 0, 0, 1),
        IpAddr::new(10, 0, 0, 2),
        17,
        &payload,
    );
    assert!(matches!(r, Err(NetError::PacketTooLarge)));
}

#[test]
fn trace_flags_register() {
    let mut stack = NetStack::new();
    assert!(!stack.trace_enabled(Flags(TRACE_TCP)));
    stack.set_trace_flags(Flags(TRACE_TCP | TRACE_ARP));
    assert!(stack.trace_enabled(Flags(TRACE_TCP)));
    assert!(stack.trace_enabled(Flags(TRACE_ARP)));
    assert_eq!(Flags::from_bits(TRACE_TCP).bits(), TRACE_TCP);
    assert!(Flags(TRACE_TCP | TRACE_ARP).contains(Flags(TRACE_ARP)));
}

#[test]
fn protocol_types_map_to_ethertypes() {
    assert_eq!(ProtocolType::Ip.ethertype(), 0x0800);
    assert_eq!(ProtocolType::Arp.ethertype(), 0x0806);
    assert_eq!(ProtocolType::from_ethertype(0x0800), Some(ProtocolType::Ip));
    assert_eq!(ProtocolType::from_ethertype(0x1234), None);
}

#[test]
fn interface_broadcast_covers_host_bits() {
    let iface = NetInterface::new(IpAddr::new(192, 0, 2, 2), IpAddr::new(255, 255, 255, 0));
    assert_eq!(iface.broadcast, IpAddr::new(192, 0, 2, 255));
    assert!(iface.covers(IpAddr::new(192, 0, 2, 77)));
    assert!(!iface.covers(IpAddr::new(192, 0, 3, 1)));
}
