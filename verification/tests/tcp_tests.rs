//! The TCP engine: window checks, handshake transitions, resets,
//! retransmission and the listen backlog, driven segment by segment.

use netstack::err::NetError;
use netstack::ip::IpAddr;
use netstack::tcp::segment::{seq_le_exec, seq_lt_exec, SegMeta};
use netstack::tcp::socket::{initial_iss, Socket, Tcp, IpEndpoint, RETRANSMIT_DEADLINE_MS, TIMEWAIT_MS};
use netstack::tcp::wire;
use netstack::tcp::State;

fn segment_bytes(
    src_port: u16,
    dst_port: u16,
    seq: u32,
    ack: u32,
    flags: u8,
    wnd: u16,
    payload: &[u8],
    src_ip: IpAddr,
    dst_ip: IpAddr,
) -> Vec<u8> {
    let mut packet = wire::PacketMut::new_unchecked(vec![0u8; 20 + payload.len()]);
    packet.set_src_port(src_port);
    packet.set_dst_port(dst_port);
    packet.set_seq_number(seq);
    packet.set_ack_number(ack);
    packet.set_header_len(20);
    packet.set_flags(flags);
    packet.set_window_len(wnd);
    packet.set_checksum(0);
    packet.set_urg_ptr(0);
    packet.set_payload(payload);
    packet.fill_checksum(src_ip, dst_ip);
    packet.into_bytes()
}

#[test]
fn validate_window_zero_len_zero_wnd() {
    let mut socket = Socket::new(1, 1);
    socket.rcv_nxt = 100;
    socket.rcv_wnd = 0;

    let seg_ok = SegMeta::new(100, 0, 0, 0, wire::FLG_RST);
    assert!(socket.validate_window(seg_ok, 0));

    let seg_ng = SegMeta::new(99, 0, 0, 0, wire::FLG_RST);
    assert!(!socket.validate_window(seg_ng, 0));
}

#[test]
fn handle_ack_synreceived_transitions() {
    let mut socket = Socket::new(1, 1);
    socket.state = State::SynReceived;
    socket.snd_una = 10;
    socket.snd_nxt = 20;
    socket.parent = Some(0);
    socket.rcv_wnd = 1;

    let seg = SegMeta::new(5, 15, 0, 4096, wire::FLG_ACK);
    assert!(socket.handle_ack(seg, 0));
    assert_eq!(socket.state, State::Established);
    assert!(socket.accept_ready);
    assert_eq!(socket.snd_una, 15);
    assert_eq!(socket.snd_wnd, 4096);
}

#[test]
fn synsent_invalid_ack_sends_rst() {
    let mut socket = Socket::new(1024, 1024);
    socket.state = State::SynSent;
    socket.iss = 100;
    socket.snd_una = 100;
    socket.snd_nxt = 101;
    socket.rcv_wnd = 1024;

    let seg = SegMeta::new(1, 100, 0, 0, wire::FLG_ACK);
    socket.handle_segment(seg, &[], 0);

    assert_eq!(socket.state, State::SynSent);
    assert_eq!(socket.pending.len(), 1);
    let req = &socket.pending[0];
    assert_eq!(req.flags, wire::FLG_RST);
    assert_eq!(req.seq, 100);
}

#[test]
fn payload_in_order_advances_rcv_nxt() {
    let mut socket = Socket::new(8, 8);
    socket.state = State::Established;
    socket.rcv_nxt = 100;
    socket.rcv_wnd = 8;
    socket.snd_una = 1;
    socket.snd_nxt = 2;

    let payload = [0x01u8, 0x02, 0x03];
    let seg = SegMeta::new(100, 2, payload.len() as u32, 1024, wire::FLG_ACK);
    socket.handle_segment(seg, &payload, 0);

    assert_eq!(socket.rx_buf.len(), 3);
    assert_eq!(socket.rcv_nxt, 103);
    assert_eq!(socket.pending.len(), 1);
}

#[test]
fn out_of_window_segment_draws_one_bare_ack() {
    let mut socket = Socket::new(8, 8);
    socket.state = State::Established;
    socket.rcv_nxt = 100;
    socket.rcv_wnd = 8;
    socket.snd_una = 1;
    socket.snd_nxt = 1;

    // far outside [100, 108)
    let seg = SegMeta::new(5000, 1, 3, 1024, wire::FLG_ACK);
    socket.handle_segment(seg, &[9, 9, 9], 0);

    assert_eq!(socket.pending.len(), 1);
    let req = &socket.pending[0];
    assert_eq!(req.flags, wire::FLG_ACK);
    assert_eq!(req.seq, 1);
    assert_eq!(req.ack, 100);
    assert!(req.payload.is_empty());
    assert_eq!(socket.rx_buf.len(), 0);
    assert_eq!(socket.state, State::Established);
}

#[test]
fn emitted_syn_carries_iss_and_data_carries_snd_nxt() {
    let mut socket = Socket::new(8192, 8192);
    socket
        .connect(
            IpEndpoint::new(IpAddr(0x0a000001), 49152),
            IpEndpoint::new(IpAddr(0x0a000002), 80),
            0,
        )
        .unwrap();
    assert_eq!(socket.pending.len(), 1);
    assert_eq!(socket.pending[0].flags, wire::FLG_SYN);
    assert_eq!(socket.pending[0].seq, socket.iss);

    // move to established and send data: its sequence is snd_nxt at enqueue
    socket.state = State::Established;
    socket.snd_wnd = 4096;
    let snd_nxt_before = socket.snd_nxt;
    socket.send_slice(b"abc", 0).unwrap();
    let last = socket.pending.last().unwrap();
    assert_eq!(last.seq, snd_nxt_before);
    assert_eq!(last.flags, wire::FLG_ACK | wire::FLG_PSH);
    assert_eq!(last.payload, b"abc");
}

#[test]
fn retransmit_deadline_closes_socket() {
    let mut socket = Socket::new(8192, 8192);
    socket.state = State::Established;
    socket.rcv_wnd = 8192;
    socket.egress(wire::FLG_SYN, &[], 0).unwrap();
    assert_eq!(socket.retransmit.len(), 1);
    socket.poll_retransmit(RETRANSMIT_DEADLINE_MS);
    assert_eq!(socket.state, State::Closed);
}

#[test]
fn retransmit_requeues_and_doubles_rto() {
    let mut socket = Socket::new(8192, 8192);
    socket.state = State::Established;
    socket.rcv_wnd = 8192;
    socket.egress(wire::FLG_ACK | wire::FLG_PSH, b"xy", 0).unwrap();
    socket.pending.clear();
    socket.poll_retransmit(300);
    assert_eq!(socket.pending.len(), 1);
    assert_eq!(socket.pending[0].payload, b"xy");
    assert_eq!(socket.retransmit[0].rto, 400);
    assert_eq!(socket.state, State::Established);
}

#[test]
fn no_matching_socket_draws_rst_with_ack_of_whole_segment() {
    let mut tcp = Tcp::new();
    let src_ip = IpAddr(0x0a000002);
    let dst_ip = IpAddr(0x0a000001);
    // SYN to a port nobody listens on
    let bytes = segment_bytes(1234, 81, 1000, 0, wire::FLG_SYN, 8192, &[], src_ip, dst_ip);
    let sends = tcp.ingress(src_ip, dst_ip, &bytes, 0).unwrap();
    assert_eq!(sends.len(), 1);
    assert_eq!(sends[0].flags, wire::FLG_RST | wire::FLG_ACK);
    assert_eq!(sends[0].seq, 0);
    assert_eq!(sends[0].ack, 1001); // seq + len, the SYN occupying one
    assert_eq!(sends[0].wnd, 0);
}

#[test]
fn no_matching_socket_with_ack_draws_bare_rst() {
    let mut tcp = Tcp::new();
    let src_ip = IpAddr(0x0a000002);
    let dst_ip = IpAddr(0x0a000001);
    let bytes = segment_bytes(1234, 81, 1000, 777, wire::FLG_ACK, 8192, &[], src_ip, dst_ip);
    let sends = tcp.ingress(src_ip, dst_ip, &bytes, 0).unwrap();
    assert_eq!(sends.len(), 1);
    assert_eq!(sends[0].flags, wire::FLG_RST);
    assert_eq!(sends[0].seq, 777);
    assert_eq!(sends[0].ack, 0);
}

#[test]
fn checksum_error_rejected() {
    let mut tcp = Tcp::new();
    let src_ip = IpAddr(0x0a000002);
    let dst_ip = IpAddr(0x0a000001);
    let mut bytes = segment_bytes(1234, 81, 1000, 0, wire::FLG_SYN, 8192, &[], src_ip, dst_ip);
    bytes[16] ^= 0xff;
    assert!(matches!(
        tcp.ingress(src_ip, dst_ip, &bytes, 0),
        Err(NetError::ChecksumError)
    ));
}

#[test]
fn passive_handshake_backlog_and_accept() {
    let mut tcp = Tcp::new();
    let src_ip = IpAddr(0x0a000002);
    let dst_ip = IpAddr(0x0a000001);

    let listener = tcp.socket_alloc().unwrap();
    tcp.socket_get_mut(listener)
        .unwrap()
        .listen(IpEndpoint::new(IpAddr(0), 80))
        .unwrap();

    // SYN seq=1000 wnd=8192
    let syn = segment_bytes(1234, 80, 1000, 0, wire::FLG_SYN, 8192, &[], src_ip, dst_ip);
    let sends = tcp.ingress(src_ip, dst_ip, &syn, 0).unwrap();
    assert_eq!(sends.len(), 1);
    assert_eq!(sends[0].flags, wire::FLG_SYN | wire::FLG_ACK);
    assert_eq!(sends[0].seq, initial_iss(80));
    assert_eq!(initial_iss(80), 80 * 1000 + 12345);
    assert_eq!(sends[0].ack, 1001);

    // ACK seq=1001 ack=iss(80)+1 completes the handshake
    let ack = segment_bytes(
        1234,
        80,
        1001,
        initial_iss(80).wrapping_add(1),
        wire::FLG_ACK,
        8192,
        &[],
        src_ip,
        dst_ip,
    );
    let sends2 = tcp.ingress(src_ip, dst_ip, &ack, 0).unwrap();
    assert!(sends2.is_empty());

    // the listener's backlog grew by exactly one and accept detaches it
    let listen_socket = tcp.socket_get(listener).unwrap();
    assert!(listen_socket.has_pending_connection());
    assert_eq!(listen_socket.backlog.len(), 1);
    let child = tcp.socket_accept(listener).unwrap();
    assert_eq!(tcp.socket_get(child).unwrap().state(), State::Established);
    assert_eq!(tcp.socket_get(child).unwrap().parent, None);
    assert!(matches!(
        tcp.socket_accept(listener),
        Err(NetError::WouldBlock)
    ));
}

#[test]
fn data_and_fin_close_passive_side() {
    let mut tcp = Tcp::new();
    let src_ip = IpAddr(0x0a000002);
    let dst_ip = IpAddr(0x0a000001);

    let listener = tcp.socket_alloc().unwrap();
    tcp.socket_get_mut(listener)
        .unwrap()
        .listen(IpEndpoint::new(IpAddr(0), 80))
        .unwrap();
    let syn = segment_bytes(1234, 80, 1000, 0, wire::FLG_SYN, 8192, &[], src_ip, dst_ip);
    tcp.ingress(src_ip, dst_ip, &syn, 0).unwrap();
    let iss = initial_iss(80);
    let ack = segment_bytes(
        1234,
        80,
        1001,
        iss.wrapping_add(1),
        wire::FLG_ACK,
        8192,
        &[],
        src_ip,
        dst_ip,
    );
    tcp.ingress(src_ip, dst_ip, &ack, 0).unwrap();
    let child = tcp.socket_accept(listener).unwrap();

    // ACK|PSH seq=1001 carrying nine bytes
    let data = segment_bytes(
        1234,
        80,
        1001,
        iss.wrapping_add(1),
        wire::FLG_ACK | wire::FLG_PSH,
        8192,
        b"GET /\r\n\r\n",
        src_ip,
        dst_ip,
    );
    let sends = tcp.ingress(src_ip, dst_ip, &data, 0).unwrap();
    assert_eq!(sends.len(), 1);
    assert_eq!(sends[0].flags, wire::FLG_ACK);
    assert_eq!(sends[0].ack, 1010);

    let mut buf = vec![0u8; 32];
    let n = tcp
        .socket_get_mut(child)
        .unwrap()
        .recv_slice(&mut buf)
        .unwrap();
    assert_eq!(n, 9);
    assert_eq!(&buf[..9], b"GET /\r\n\r\n");

    // FIN|ACK seq=1010: CLOSE-WAIT, and the ACK acknowledges 1011
    let fin = segment_bytes(
        1234,
        80,
        1010,
        iss.wrapping_add(1),
        wire::FLG_FIN | wire::FLG_ACK,
        8192,
        &[],
        src_ip,
        dst_ip,
    );
    let sends2 = tcp.ingress(src_ip, dst_ip, &fin, 0).unwrap();
    assert_eq!(tcp.socket_get(child).unwrap().state(), State::CloseWait);
    assert_eq!(sends2.len(), 1);
    assert_eq!(sends2[0].flags, wire::FLG_ACK);
    assert_eq!(sends2[0].ack, 1011);
}

#[test]
fn poll_closes_socket_with_expired_retransmit() {
    let mut tcp = Tcp::new();
    let index = tcp.socket_alloc().unwrap();
    {
        let socket = tcp.socket_get_mut(index).unwrap();
        socket.state = State::Established;
        socket.rcv_wnd = 8192;
        socket.egress(wire::FLG_ACK | wire::FLG_PSH, b"zz", 0).unwrap();
    }
    let _ = tcp.poll(RETRANSMIT_DEADLINE_MS);
    assert_eq!(tcp.socket_get(index).unwrap().state(), State::Closed);
}

#[test]
fn sequence_arithmetic_wraps() {
    assert!(seq_lt_exec(0xffff_fff0, 0x10));
    assert!(!seq_lt_exec(0x10, 0xffff_fff0));
    assert!(seq_le_exec(5, 5));
    assert!(seq_lt_exec(100, 200));
}

#[test]
fn state_names() {
    assert_eq!(State::Established.name(), "ESTABLISHED");
    assert_eq!(State::FinWait1.name(), "FIN-WAIT-1");
    assert_eq!(State::TimeWait.name(), "TIME-WAIT");
}

#[test]
fn receive_window_tracks_free_space() {
    let mut socket = Socket::new(16, 16);
    socket.state = State::Established;
    socket.rcv_nxt = 100;
    socket.rcv_wnd = 16;
    socket.snd_una = 1;
    socket.snd_nxt = 1;

    let seg = SegMeta::new(100, 1, 5, 1024, wire::FLG_ACK);
    socket.handle_segment(seg, &[1, 2, 3, 4, 5], 0);
    assert_eq!(socket.rcv_wnd, 11);

    let mut buf = vec![0u8; 3];
    socket.recv_slice(&mut buf).unwrap();
    assert_eq!(socket.rcv_wnd, 14);
}

#[test]
fn timewait_expires_to_closed() {
    let mut socket = Socket::new(16, 16);
    socket.state = State::TimeWait;
    socket.rcv_wnd = 16;
    socket.timewait_deadline = Some(TIMEWAIT_MS);
    socket.poll_timewait(TIMEWAIT_MS - 1);
    assert_eq!(socket.state, State::TimeWait);
    socket.poll_timewait(TIMEWAIT_MS);
    assert_eq!(socket.state, State::Closed);
    assert_eq!(socket.timewait_deadline, None);
}

#[test]
fn listen_rejects_open_socket() {
    let mut socket = Socket::new(16, 16);
    socket.listen(IpEndpoint::new(IpAddr(0), 80)).unwrap();
    assert!(matches!(
        socket.listen(IpEndpoint::new(IpAddr(0), 81)),
        Err(NetError::SocketAlreadyOpen)
    ));
}

#[test]
fn send_on_closed_socket_fails() {
    let mut socket = Socket::new(16, 16);
    assert!(matches!(
        socket.send_slice(b"x", 0),
        Err(NetError::SocketNotOpen)
    ));
    let mut buf = vec![0u8; 4];
    assert!(matches!(
        socket.recv_slice(&mut buf),
        Err(NetError::SocketNotOpen)
    ));
}

#[test]
fn send_with_full_buffer_reports_buffer_full() {
    let mut socket = Socket::new(16, 4);
    socket.state = State::Established;
    socket.rcv_wnd = 16;
    socket.snd_wnd = 0;
    socket.send_slice(b"abcd", 0).unwrap();
    assert!(matches!(
        socket.send_slice(b"e", 0),
        Err(NetError::BufferFull)
    ));
}

#[test]
fn rst_in_window_closes_connection() {
    let mut socket = Socket::new(8, 8);
    socket.state = State::Established;
    socket.rcv_nxt = 100;
    socket.rcv_wnd = 8;
    socket.snd_una = 1;
    socket.snd_nxt = 1;

    let seg = SegMeta::new(100, 0, 0, 0, wire::FLG_RST);
    socket.handle_segment(seg, &[], 0);
    assert_eq!(socket.state, State::Closed);
    assert!(socket.pending.is_empty());
}

#[test]
fn stray_syn_in_established_resets() {
    let mut socket = Socket::new(8, 8);
    socket.state = State::Established;
    socket.rcv_nxt = 100;
    socket.rcv_wnd = 8;
    socket.snd_una = 1;
    socket.snd_nxt = 1;

    let seg = SegMeta::new(100, 0, 1, 0, wire::FLG_SYN);
    socket.handle_segment(seg, &[], 0);
    assert_eq!(socket.state, State::Closed);
    assert_eq!(socket.pending.len(), 1);
    assert_eq!(socket.pending[0].flags, wire::FLG_RST | wire::FLG_ACK);
    assert_eq!(socket.pending[0].ack, 101);
}

#[test]
fn duplicate_syn_in_syn_received_repeats_syn_ack() {
    let mut socket = Socket::new(8192, 8192);
    socket.state = State::SynReceived;
    socket.iss = 500;
    socket.snd_una = 500;
    socket.snd_nxt = 501;
    socket.rcv_nxt = 1001;
    socket.rcv_wnd = 8192;

    let seg = SegMeta::new(1000, 0, 1, 8192, wire::FLG_SYN);
    socket.handle_segment(seg, &[], 0);
    assert_eq!(socket.state, State::SynReceived);
    assert_eq!(socket.pending.len(), 1);
    assert_eq!(socket.pending[0].flags, wire::FLG_SYN | wire::FLG_ACK);
    assert_eq!(socket.pending[0].seq, 500);
}

#[test]
fn ephemeral_port_cursor_stays_in_range() {
    let mut tcp = Tcp::new();
    let mut last = 0u16;
    for _ in 0..3 {
        let p = tcp.next_ephemeral_port();
        assert!((49152..=65535).contains(&p));
        assert_ne!(p, last);
        last = p;
    }
}

#[test]
fn cleanup_retransmit_uses_sequence_arithmetic() {
    // near a wrap: snd_una just past zero, an entry acknowledged before
    // the wrap must still be dropped, one at the edge must stay
    let mut socket = Socket::new(8192, 8192);
    socket.state = State::Established;
    socket.rcv_wnd = 8192;
    socket.snd_una = 0xffff_fff0;
    socket.snd_nxt = 0xffff_fff0;
    socket.egress(wire::FLG_ACK | wire::FLG_PSH, b"a", 0).unwrap(); // seq 0xfffffff0
    socket.snd_nxt = socket.snd_nxt.wrapping_add(1);
    socket.egress(wire::FLG_ACK | wire::FLG_PSH, b"b", 0).unwrap(); // seq 0xfffffff1
    socket.snd_nxt = socket.snd_nxt.wrapping_add(1);

    // the peer acknowledges across the wrap: everything before 5 is done
    socket.snd_una = 5;
    socket.cleanup_retransmit();
    assert!(socket.retransmit.is_empty());

    // and an unacknowledged post-wrap entry survives
    socket.snd_nxt = 5;
    socket.egress(wire::FLG_ACK | wire::FLG_PSH, b"c", 0).unwrap(); // seq 5
    socket.cleanup_retransmit();
    assert_eq!(socket.retransmit.len(), 1);
    assert_eq!(socket.retransmit[0].seq, 5);
}

#[test]
fn flush_tx_respects_window_and_mss() {
    let mut socket = Socket::new(8192, 8192);
    socket.state = State::Established;
    socket.rcv_wnd = 8192;
    socket.snd_wnd = 3;
    socket.send_slice(b"abcdef", 0).unwrap();
    // only the window's three bytes leave; the rest stays buffered
    assert_eq!(socket.pending.len(), 1);
    assert_eq!(socket.pending[0].payload, b"abc");
    assert_eq!(socket.tx_buf.len(), 3);
    assert_eq!(socket.snd_nxt, 3);
}
