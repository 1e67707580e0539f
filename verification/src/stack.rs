//! The stack itself: devices, routes, the ARP cache and the three
//! protocol engines, composed behind the ingress and egress paths.
//!
//! Nothing here performs I/O.  Frames for real devices are queued on
//! `tx_frames` for the driver glue to drain; a loopback transmit is
//! queued on `loopback_rx` and handed back to IP ingress by the next
//! `poll`.  The embedder advances the clock with `tick` before calling
//! in.

use vstd::prelude::*;
use vstd::string::StringSliceAdditionalSpecFns;

use crate::arp;
use crate::arp::ArpCache;
use crate::device::{bytes_eq, flag_up, NetDevice, NetDeviceConfig, NetDeviceFlags, NetDeviceType};
use crate::err::NetError;
use crate::ether;
use crate::ether::MacAddr;
use crate::icmp;
use crate::icmp::{Icmp, IcmpReply, IcmpReplyKind};
use crate::interface::NetInterface;
use crate::ip;
use crate::ip::IpAddr;
use crate::protocol::ProtocolType;
use crate::route::{Route, RouteTable};
use crate::tcp::socket::{IpEndpoint, SendRequest, Tcp};
use crate::tcp::wire as tcp_wire;
use crate::trace::Flags;
use crate::udp::{build_udp_datagram, Udp, UdpEndpoint};
use crate::util;

verus! {

/// A stack left entirely as it was, field by observable field.
pub open spec fn unchanged_stack_state(a: NetStack, b: NetStack) -> bool {
    &&& a.devices@ == b.devices@
    &&& a.registered@ == b.registered@
    &&& a.routes.routes@ == b.routes.routes@
    &&& a.arp.entries@ == b.arp.entries@
    &&& a.udp.pcbs@ == b.udp.pcbs@
    &&& a.icmp.sockets@ == b.icmp.sockets@
    &&& a.icmp.reply_queue@ == b.icmp.reply_queue@
    &&& a.tcp.sockets@ == b.tcp.sockets@
    &&& a.loopback_rx@ == b.loopback_rx@
    &&& a.tx_frames@ == b.tx_frames@
    &&& a.poll_pending == b.poll_pending
}

/// Whether a loopback device is registered and every device named `lo`
/// is in fact a loopback device.
pub open spec fn loopback_ready(devices: Seq<NetDevice>) -> bool {
    &&& exists|i: int|
        0 <= i < devices.len() && vstd::utf8::encode_utf8((#[trigger] devices[i]).name@)
            == seq![0x6cu8, 0x6fu8]
    &&& forall|j: int|
        0 <= j < devices.len() && vstd::utf8::encode_utf8((#[trigger] devices[j]).name@)
            == seq![0x6cu8, 0x6fu8] ==> devices[j].dev_type == NetDeviceType::Loopback
}

/// A loopback-queued IP packet that answers an echo request `data` sent
/// from `src` to itself: a valid packet back to `src` whose payload is
/// the echo reply with the id, sequence and payload preserved.
pub open spec fn echo_reply_packet_ok(b: Seq<u8>, src: IpAddr, data: Seq<u8>) -> bool {
    let reply = b.subrange(20, b.len() as int);
    &&& ip::is_ip_packet(b, IpAddr(ip::LOOPBACK_BITS), src, ip::PROTO_ICMP, reply)
    &&& reply.len() == data.len()
    &&& reply[0] == 0
    &&& util::be16_at(reply, 4) == util::be16_at(data, 4)
    &&& util::be16_at(reply, 6) == util::be16_at(data, 6)
    &&& reply.skip(8) == data.skip(8)
    &&& (data.len() % 2 == 0 ==> util::checksum_spec(reply) == 0)
}

/// A frame queued for a real device's driver.
pub struct TxFrame {
    pub dev_index: usize,
    pub bytes: Vec<u8>,
}

/// The whole networking stack as one value.
pub struct NetStack {
    pub devices: Vec<NetDevice>,
    pub registered: Vec<ProtocolType>,
    pub routes: RouteTable,
    pub arp: ArpCache,
    pub udp: Udp,
    pub icmp: Icmp,
    pub tcp: Tcp,
    pub loopback_rx: Vec<Vec<u8>>,
    pub tx_frames: Vec<TxFrame>,
    pub poll_pending: bool,
    pub trace_flags: Flags,
    pub now_ms: u64,
    pub now_ticks: usize,
}

impl NetStack {
    /// The stack's invariant: its TCP engine is well formed.
    pub open spec fn wf(self) -> bool {
        self.tcp.wf()
    }

    /// A fresh stack with no devices, no routes and empty tables.
    pub fn new() -> (r: Self)
        ensures
            r.wf(),
            r.devices@.len() == 0,
            r.registered@.len() == 0,
            r.routes.routes@.len() == 0,
            r.arp.entries@.len() == 0,
            r.tx_frames@.len() == 0,
            r.loopback_rx@.len() == 0,
            r.poll_pending == false,
            r.udp.pcbs@.len() == crate::udp::UDP_PCB_SIZE,
            forall|i: int|
                0 <= i < r.udp.pcbs@.len() ==> (#[trigger] r.udp.pcbs@[i]).state
                    == crate::udp::UdpState::Free,
            r.udp.next_port == crate::udp::UDP_SOURCE_PORT_MIN,
            r.icmp.sockets@.len() == icmp::ICMP_SOCKET_CAPACITY,
            forall|i: int| 0 <= i < r.icmp.sockets@.len() ==> r.icmp.sockets@[i] is None,
            r.icmp.reply_queue@.len() == 0,
            r.tcp.sockets@.len() == crate::tcp::socket::SOCKET_CAPACITY,
            forall|i: int| 0 <= i < r.tcp.sockets@.len() ==> r.tcp.sockets@[i] is None,
            r.tcp.next_port == crate::tcp::socket::EPHEMERAL_PORT_MIN,
    {
        NetStack {
            devices: Vec::new(),
            registered: Vec::new(),
            routes: RouteTable::new(),
            arp: ArpCache::new(),
            udp: Udp::new(),
            icmp: Icmp::new(),
            tcp: Tcp::new(),
            loopback_rx: Vec::new(),
            tx_frames: Vec::new(),
            poll_pending: false,
            trace_flags: Flags(0),
            now_ms: 0,
            now_ticks: 0,
        }
    }

    /// Choose which subsystems trace.
    pub fn set_trace_flags(&mut self, flags: Flags)
        requires
            old(self).wf(),
        ensures
            final(self).wf(),
            final(self).trace_flags == flags,
    {
        self.trace_flags = flags;
    }

    /// Whether a subsystem's tracing is switched on.
    pub fn trace_enabled(&self, flag: Flags) -> (r: bool)
        ensures
            r == ((self.trace_flags.0 & flag.0) == flag.0),
    {
        crate::trace::is_enabled(self.trace_flags, flag)
    }

    /// Advance the stack's view of the clock.
    pub fn tick(&mut self, now_ms: u64, now_ticks: usize)
        requires
            old(self).wf(),
        ensures
            final(self).wf(),
            final(self).now_ms == now_ms,
            final(self).now_ticks == now_ticks,
    {
        self.now_ms = now_ms;
        self.now_ticks = now_ticks;
    }

    /// Add a device to the registry; its index is its handle and the
    /// device is stored there.
    pub fn net_device_register(&mut self, device: NetDevice) -> (r: Result<usize, NetError>)
        requires
            old(self).wf(),
        ensures
            final(self).wf(),
            r == Ok::<usize, NetError>(old(self).devices@.len() as usize),
            final(self).devices@.len() == old(self).devices@.len() + 1,
            final(self).devices@.last().name@ == device.name@,
            final(self).devices@.last().dev_type == device.dev_type,
            final(self).devices@.last().hw_addr == device.hw_addr,
            final(self).devices@.last().flags == device.flags,
            final(self).devices@.last().interfaces@ == device.interfaces@,
            final(self).devices@.drop_last() == old(self).devices@,
    {
        let index = self.devices.len();
        self.devices.push(device);
        Ok(index)
    }

    /// The index of the first device whose name's bytes equal `name`'s.
    pub fn device_index_by_name(&self, name: &str) -> (r: Option<usize>)
        ensures
            match r {
                Some(i) => i < self.devices@.len() && vstd::utf8::encode_utf8(
                    self.devices@[i as int].name@,
                ) == name.spec_bytes() && forall|j: int|
                    0 <= j < i ==> vstd::utf8::encode_utf8((#[trigger] self.devices@[j]).name@)
                        != name.spec_bytes(),
                None => forall|i: int|
                    0 <= i < self.devices@.len() ==> vstd::utf8::encode_utf8(
                        (#[trigger] self.devices@[i]).name@,
                    ) != name.spec_bytes(),
            },
    {
        let n = self.devices.len();
        let mut i: usize = 0;
        while i < n
            invariant
                i <= n,
                n == self.devices@.len(),
                forall|j: int|
                    0 <= j < i ==> vstd::utf8::encode_utf8((#[trigger] self.devices@[j]).name@)
                        != name.spec_bytes(),
            decreases n - i,
        {
            if bytes_eq(self.devices[i].name.as_str().as_bytes(), name.as_bytes()) {
                return Some(i);
            }
            i = i + 1;
        }
        None
    }

    /// Borrow the first device whose name's bytes equal `name`'s.
    pub fn net_device_by_name(&self, name: &str) -> (r: Option<&NetDevice>)
        ensures
            match r {
                Some(d) => exists|i: int|
                    {
                        &&& 0 <= i < self.devices@.len()
                        &&& *d == self.devices@[i]
                        &&& vstd::utf8::encode_utf8((#[trigger] self.devices@[i]).name@)
                            == name.spec_bytes()
                        &&& forall|j: int|
                            0 <= j < i ==> vstd::utf8::encode_utf8(
                                (#[trigger] self.devices@[j]).name@,
                            ) != name.spec_bytes()
                    },
                None => forall|i: int|
                    0 <= i < self.devices@.len() ==> vstd::utf8::encode_utf8(
                        (#[trigger] self.devices@[i]).name@,
                    ) != name.spec_bytes(),
            },
    {
        match self.device_index_by_name(name) {
            Some(i) => Some(&self.devices[i]),
            None => None,
        }
    }

    /// Borrow a device by index.
    pub fn net_device_by_index(&self, index: usize) -> (r: Option<&NetDevice>)
        ensures
            match r {
                Some(d) => index < self.devices@.len() && *d == self.devices@[index as int],
                None => index >= self.devices@.len(),
            },
    {
        if index < self.devices.len() {
            Some(&self.devices[index])
        } else {
            None
        }
    }

    /// Attach an interface to a named device.
    pub fn net_interface_setup(&mut self, dev_name: &str, addr: IpAddr, netmask: IpAddr) -> (r:
        Result<(), NetError>)
        requires
            old(self).wf(),
        ensures
            final(self).wf(),
            r is Err <==> forall|i: int|
                0 <= i < old(self).devices@.len() ==> vstd::utf8::encode_utf8(
                    (#[trigger] old(self).devices@[i]).name@,
                ) != dev_name.spec_bytes(),
            r is Err ==> r == Err::<(), NetError>(NetError::DeviceNotFound) && final(self).devices@ == old(self).devices@,
            r is Ok ==> exists|i: int|
                {
                    &&& 0 <= i < old(self).devices@.len()
                    &&& vstd::utf8::encode_utf8((#[trigger] old(self).devices@[i]).name@)
                        == dev_name.spec_bytes()
                    &&& final(self).devices@[i].interfaces@.len() == old(self).devices@[i].interfaces@.len() + 1
                    &&& final(self).devices@[i].interfaces@.last().addr == addr
                    &&& final(self).devices@[i].interfaces@.last().netmask == netmask
                    &&& final(self).devices@[i].interfaces@.last().broadcast.0 == (addr.0
                        | !netmask.0)
                    &&& final(self).devices@[i].interfaces@.drop_last() == old(self).devices@[i].interfaces@
                    &&& forall|j: int|
                        0 <= j < old(self).devices@.len() && j != i ==> final(self).devices@[j]
                            == old(self).devices@[j]
                },
    {
        let index = match self.device_index_by_name(dev_name) {
            Some(i) => i,
            None => {
                return Err(NetError::DeviceNotFound);
            },
        };
        let iface = NetInterface::new(addr, netmask);
        let dev = &mut self.devices[index];
        dev.add_interface(iface);
        Ok(())
    }

    /// Enable an ingress protocol.
    pub fn net_protocol_register(&mut self, ptype: ProtocolType)
        requires
            old(self).wf(),
        ensures
            final(self).wf(),
            final(self).registered@ == old(self).registered@.push(ptype),
    {
        self.registered.push(ptype);
    }

    /// Whether an ingress protocol has been registered.
    pub fn protocol_registered(&self, ptype: ProtocolType) -> (r: bool)
        ensures
            r == self.registered@.contains(ptype),
    {
        let n = self.registered.len();
        let mut i: usize = 0;
        while i < n
            invariant
                i <= n,
                n == self.registered@.len(),
                forall|j: int| 0 <= j < i ==> self.registered@[j] != ptype,
            decreases n - i,
        {
            if self.registered[i] == ptype {
                proof {
                    assert(self.registered@.contains(ptype));
                }
                return true;
            }
            i = i + 1;
        }
        false
    }

    /// Queue bytes on a device: a loopback transmit is its own receive,
    /// a real device's frame goes to the driver queue.
    pub fn transmit(&mut self, dev_index: usize, data: Vec<u8>) -> (r: Result<(), NetError>)
        requires
            old(self).wf(),
        ensures
            final(self).wf(),
            final(self).tcp.sockets@ == old(self).tcp.sockets@,
            final(self).icmp.sockets@ == old(self).icmp.sockets@,
            final(self).icmp.reply_queue@ == old(self).icmp.reply_queue@,
            final(self).devices@ == old(self).devices@,
            final(self).arp.entries@ == old(self).arp.entries@,
            match r {
                Ok(()) => {
                    &&& dev_index < old(self).devices@.len()
                    &&& (old(self).devices@[dev_index as int].dev_type == NetDeviceType::Loopback
                        ==> final(self).loopback_rx@ == old(self).loopback_rx@.push(data)
                        && final(self).tx_frames@ == old(self).tx_frames@ && final(self).poll_pending)
                    &&& (old(self).devices@[dev_index as int].dev_type == NetDeviceType::Ethernet
                        ==> final(self).loopback_rx@ == old(self).loopback_rx@ && final(self).tx_frames@.len() == old(self).tx_frames@.len() + 1 && final(self).tx_frames@.drop_last() == old(self).tx_frames@ && final(self).tx_frames@.last().dev_index == dev_index && final(self).tx_frames@.last().bytes@ == data@)
                },
                Err(e) => {
                    &&& e == NetError::DeviceNotFound
                    &&& dev_index >= old(self).devices@.len()
                    &&& final(self).loopback_rx@ == old(self).loopback_rx@
                    &&& final(self).tx_frames@ == old(self).tx_frames@
                },
            },
    {
        if dev_index >= self.devices.len() {
            return Err(NetError::DeviceNotFound);
        }
        let is_loopback = matches!(self.devices[dev_index].dev_type, NetDeviceType::Loopback);
        if is_loopback {
            self.loopback_rx.push(data);
            self.poll_pending = true;
        } else {
            self.tx_frames.push(TxFrame { dev_index, bytes: data });
        }
        Ok(())
    }

    /// Frame egress: refuse a device that is not up, then prepend the
    /// Ethernet header and transmit.
    pub fn ethernet_output(
        &mut self,
        dev_index: usize,
        dst_mac: MacAddr,
        ethertype: u16,
        payload: &[u8],
    ) -> (r: Result<(), NetError>)
        requires
            old(self).wf(),
        ensures
            final(self).wf(),
            r == Err::<(), NetError>(NetError::NotConnected) ==> dev_index < old(self).devices@.len() && !flag_up(old(self).devices@[dev_index as int].flags.0),
            (dev_index < old(self).devices@.len() && !flag_up(
                old(self).devices@[dev_index as int].flags.0,
            )) ==> r == Err::<(), NetError>(NetError::NotConnected),
            final(self).tcp.sockets@ == old(self).tcp.sockets@,
            final(self).icmp.sockets@ == old(self).icmp.sockets@,
            final(self).icmp.reply_queue@ == old(self).icmp.reply_queue@,
            final(self).devices@ == old(self).devices@,
            final(self).arp.entries@ == old(self).arp.entries@,
            r is Err ==> r == Err::<(), NetError>(NetError::DeviceNotFound) || r == Err::<(),
                NetError,
            >(NetError::NotConnected),
            r == Err::<(), NetError>(NetError::DeviceNotFound) <==> dev_index >= old(self).devices@.len(),
            (dev_index < old(self).devices@.len() && flag_up(
                old(self).devices@[dev_index as int].flags.0,
            )) ==> r is Ok,
            // what goes out on a real device is the framed payload
            r is Ok && old(self).devices@[dev_index as int].dev_type == NetDeviceType::Ethernet
                ==> final(self).tx_frames@.len() == old(self).tx_frames@.len() + 1 && final(self).tx_frames@.drop_last() == old(self).tx_frames@ && final(self).tx_frames@.last().dev_index == dev_index && final(self).tx_frames@.last().bytes@ == ether::eth_header_bytes(
                ether::EthHeader {
                    dst: dst_mac.0,
                    src: old(self).devices@[dev_index as int].hw_addr.0,
                    ethertype,
                },
            ) + payload@ && final(self).loopback_rx@ == old(self).loopback_rx@,
            r is Err ==> final(self).tx_frames@ == old(self).tx_frames@ && final(self).loopback_rx@ == old(self).loopback_rx@,
    {
        if dev_index >= self.devices.len() {
            return Err(NetError::DeviceNotFound);
        }
        if !self.devices[dev_index].flags().is_up() {
            return Err(NetError::NotConnected);
        }
        let src_mac = self.devices[dev_index].hw_addr;
        let frame = ether::build_eth_frame(dst_mac, src_mac, ethertype, payload);
        self.transmit(dev_index, frame)
    }

    /// Frame ingress: demux by ethertype to ARP or, through the protocol
    /// registry, to IPv4.
    pub fn ethernet_input(&mut self, dev_index: usize, data: &[u8]) -> (r: Result<(), NetError>)
        requires
            old(self).wf(),
            data@.len() <= 0x10000,
        ensures
            final(self).wf(),
            data@.len() < ether::ETH_HEADER_LEN ==> r == Err::<(), NetError>(
                NetError::PacketTooShort,
            ),
            (data@.len() >= ether::ETH_HEADER_LEN && util::be16_at(data@, 12)
                != ether::ETHERTYPE_ARP && util::be16_at(data@, 12) != ether::ETHERTYPE_IPV4)
                ==> r == Err::<(), NetError>(NetError::UnsupportedProtocol),
            // an ARP reply carried in a frame reaches the cache
            (data@.len() >= ether::ETH_HEADER_LEN && util::be16_at(data@, 12)
                == ether::ETHERTYPE_ARP && arp::arp_shape_ok(
                data@.skip(ether::ETH_HEADER_LEN as int),
            ) && util::be16_at(data@.skip(ether::ETH_HEADER_LEN as int), 6)
                == arp::ARP_OP_REPLY) ==> (r is Ok && exists|i: int|
                0 <= i < final(self).arp.entries@.len() && (#[trigger] final(self).arp.entries@[i]).valid && final(self).arp.entries@[i].ip.0 == util::be32_at(
                    data@.skip(ether::ETH_HEADER_LEN as int),
                    14,
                ) && final(self).arp.entries@[i].mac.0@ == data@.skip(
                    ether::ETH_HEADER_LEN as int,
                ).subrange(8, 14)),
    {
        let header = match ether::parse_eth_header(data) {
            Ok(h) => h,
            Err(e) => {
                return Err(e);
            },
        };
        let payload = vstd::slice::slice_subrange(data, ether::ETH_HEADER_LEN, data.len());
        if header.ethertype == ether::ETHERTYPE_ARP {
            self.arp_input(dev_index, payload)
        } else if header.ethertype == ether::ETHERTYPE_IPV4 {
            self.net_protocol_handler(dev_index, ProtocolType::Ip, payload)
        } else {
            Err(NetError::UnsupportedProtocol)
        }
    }

    /// Dispatch ingress bytes to a registered protocol;
    /// `UnsupportedProtocol` when it was never registered.
    pub fn net_protocol_handler(
        &mut self,
        dev_index: usize,
        ptype: ProtocolType,
        data: &[u8],
    ) -> (r: Result<(), NetError>)
        requires
            old(self).wf(),
            data@.len() <= 0xffff,
        ensures
            final(self).wf(),
            !old(self).registered@.contains(ptype) ==> r == Err::<(), NetError>(
                NetError::UnsupportedProtocol,
            ),
            ptype == ProtocolType::Ipv6 ==> r == Err::<(), NetError>(
                NetError::UnsupportedProtocol,
            ),
            // an IPv4 payload that fails validation reports exactly the
            // validation error
            (old(self).registered@.contains(ProtocolType::Ip) && ptype == ProtocolType::Ip
                && !ip::ip_input_ok(data@)) ==> r == Err::<(), NetError>(ip::ip_input_err(data@)),
    {
        if !self.protocol_registered(ptype) {
            return Err(NetError::UnsupportedProtocol);
        }
        match ptype {
            ProtocolType::Ip => self.ip_input(dev_index, data),
            ProtocolType::Arp => self.arp_input(dev_index, data),
            ProtocolType::Ipv6 => Err(NetError::UnsupportedProtocol),
        }
    }

    /// Device-level ingress: a loopback device hands its bytes straight
    /// to IPv4; anything else is not supported here.
    pub fn net_ingress_handler(&mut self, dev_index: usize, data: &[u8]) -> (r: Result<
        (),
        NetError,
    >)
        requires
            old(self).wf(),
            data@.len() <= 0xffff,
        ensures
            final(self).wf(),
            dev_index >= old(self).devices@.len() ==> r == Err::<(), NetError>(
                NetError::DeviceNotFound,
            ),
            (dev_index < old(self).devices@.len() && old(self).devices@[dev_index as int].dev_type
                == NetDeviceType::Ethernet) ==> r == Err::<(), NetError>(
                NetError::UnsupportedDevice,
            ),
            (dev_index < old(self).devices@.len() && old(self).devices@[dev_index as int].dev_type
                == NetDeviceType::Loopback && old(self).registered@.contains(ProtocolType::Ip)
                && !ip::ip_input_ok(data@)) ==> r == Err::<(), NetError>(ip::ip_input_err(data@)),
    {
        if dev_index >= self.devices.len() {
            return Err(NetError::DeviceNotFound);
        }
        if matches!(self.devices[dev_index].dev_type, NetDeviceType::Loopback) {
            return self.net_protocol_handler(dev_index, ProtocolType::Ip, data);
        }
        Err(NetError::UnsupportedDevice)
    }

    /// Register the IPv4 ingress protocol.
    pub fn ip_init(&mut self)
        requires
            old(self).wf(),
        ensures
            final(self).wf(),
            final(self).registered@ == old(self).registered@.push(ProtocolType::Ip),
    {
        self.net_protocol_register(ProtocolType::Ip);
    }

    /// IPv4 ingress: validate the header in order, then demux the
    /// payload by protocol number.
    pub fn ip_input(&mut self, dev_index: usize, data: &[u8]) -> (r: Result<(), NetError>)
        requires
            old(self).wf(),
            data@.len() <= 0xffff,
        ensures
            final(self).wf(),
            !ip::ip_input_ok(data@) ==> r == Err::<(), NetError>(ip::ip_input_err(data@)),
            // a protocol this stack does not speak is refused
            (ip::ip_input_ok(data@) && ip::parse_ip_header(data@).protocol != ip::PROTO_ICMP
                && ip::parse_ip_header(data@).protocol != ip::PROTO_TCP && ip::parse_ip_header(
                data@,
            ).protocol != ip::PROTO_UDP) ==> r == Err::<(), NetError>(
                NetError::UnsupportedProtocol,
            ),
            // a UDP payload that a bound socket covers is delivered
            (ip::ip_input_ok(data@) && ip::parse_ip_header(data@).protocol == ip::PROTO_UDP && ({
                let p = data@.subrange(
                    ip::parse_ip_header(data@).header_len_spec(),
                    ip::parse_ip_header(data@).total_len as int,
                );
                p.len() >= crate::udp::UDP_HEADER_LEN && crate::udp::UDP_HEADER_LEN
                    <= util::be16_at(p, 4) <= p.len() && crate::udp::udp_checksum_ok(
                    ip::IpAddr(ip::parse_ip_header(data@).src),
                    ip::IpAddr(ip::parse_ip_header(data@).dst),
                    p.take(util::be16_at(p, 4)),
                ) && exists|i: int|
                    0 <= i < old(self).udp.pcbs@.len() && (#[trigger] old(self).udp.pcbs@[i]).state == crate::udp::UdpState::Open && old(self).udp.pcbs@[i].local.port
                        == util::be16_at(p, 2) && (old(self).udp.pcbs@[i].local.addr.0 == 0 || old(self).udp.pcbs@[i].local.addr.0 == ip::parse_ip_header(data@).dst)
            })) ==> r is Ok,
            // every checksum-valid ICMP payload fans out to the open raw
            // sockets
            (ip::ip_input_ok(data@) && ip::parse_ip_header(data@).protocol == ip::PROTO_ICMP && ({
                let p = data@.subrange(
                    ip::parse_ip_header(data@).header_len_spec(),
                    ip::parse_ip_header(data@).total_len as int,
                );
                p.len() >= icmp::ICMP_HEADER_SIZE && util::checksum_spec(p) == 0
            })) ==> forall|i: int|
                0 <= i < old(self).icmp.sockets@.len() && old(self).icmp.sockets@[i] is Some ==> ((
                #[trigger] final(self).icmp.sockets@[i]) is Some && final(self).icmp.sockets@[i]->0.recv_queue@.len() == old(self).icmp.sockets@[i]->0.recv_queue@.len() + 1
                    && final(self).icmp.sockets@[i]->0.recv_queue@.last().src.0
                    == ip::parse_ip_header(data@).src && final(self).icmp.sockets@[i]->0.recv_queue@.last().data@ == data@.subrange(
                    ip::parse_ip_header(data@).header_len_spec(),
                    ip::parse_ip_header(data@).total_len as int,
                )),
    {
        let header = match ip::ip_validate(data) {
            Ok(h) => h,
            Err(e) => {
                return Err(e);
            },
        };
        let hlen = header.header_len();
        let total_len = header.total_len as usize;
        let src = IpAddr(header.src);
        let dst = IpAddr(header.dst);
        let payload = vstd::slice::slice_subrange(data, hlen, total_len);
        let _ = dev_index;
        if header.protocol == ip::PROTO_ICMP {
            self.icmp_input(src, dst, payload)
        } else if header.protocol == ip::PROTO_TCP {
            self.tcp_input(src, dst, payload)
        } else if header.protocol == ip::PROTO_UDP {
            self.udp.udp_input(src, dst, payload)
        } else {
            Err(NetError::UnsupportedProtocol)
        }
    }

    /// IPv4 egress on a known device: build the packet and transmit it —
    /// into the loopback receive queue or onto the driver queue.
    #[verifier::rlimit(50)]
    pub fn ip_output(
        &mut self,
        dev_index: usize,
        protocol: u8,
        src: IpAddr,
        dst: IpAddr,
        data: &[u8],
    ) -> (r: Result<(), NetError>)
        requires
            old(self).wf(),
        ensures
            final(self).wf(),
            final(self).tcp.sockets@ == old(self).tcp.sockets@,
            final(self).icmp.sockets@ == old(self).icmp.sockets@,
            final(self).icmp.reply_queue@ == old(self).icmp.reply_queue@,
            (dev_index < old(self).devices@.len() && data@.len() + 20 <= 65535) ==> r is Ok,
            match r {
                Ok(()) => {
                    &&& dev_index < old(self).devices@.len()
                    &&& (old(self).devices@[dev_index as int].dev_type == NetDeviceType::Loopback
                        ==> (final(self).loopback_rx@.len() == old(self).loopback_rx@.len() + 1
                        && final(self).loopback_rx@.drop_last() == old(self).loopback_rx@
                        && ip::is_ip_packet(
                        final(self).loopback_rx@.last()@,
                        src,
                        dst,
                        protocol,
                        data@,
                    ) && final(self).tx_frames@ == old(self).tx_frames@ && final(self).poll_pending))
                    &&& (old(self).devices@[dev_index as int].dev_type == NetDeviceType::Ethernet
                        ==> (final(self).tx_frames@.len() == old(self).tx_frames@.len() + 1
                        && final(self).tx_frames@.last().dev_index == dev_index
                        && ip::is_ip_packet(
                        final(self).tx_frames@.last().bytes@,
                        src,
                        dst,
                        protocol,
                        data@,
                    ) && final(self).loopback_rx@ == old(self).loopback_rx@))
                },
                Err(e) => {
                    &&& (e == NetError::PacketTooLarge <==> data@.len() + 20 > 65535)
                    &&& (e == NetError::DeviceNotFound <==> (data@.len() + 20 <= 65535
                        && dev_index >= old(self).devices@.len()))
                    &&& (e == NetError::PacketTooLarge || e == NetError::DeviceNotFound)
                    &&& final(self).loopback_rx@ == old(self).loopback_rx@
                    &&& final(self).tx_frames@ == old(self).tx_frames@
                },
            },
    {
        let packet = match ip::build_ipv4_packet(src, dst, protocol, data) {
            Ok(p) => p,
            Err(e) => {
                return Err(e);
            },
        };
        self.transmit(dev_index, packet)
    }

    /// Source-address selection: loopback for loopback, else the
    /// interface of the route's device whose subnet covers the
    /// destination, else that device's first interface.
    pub fn get_source_address(&self, dst: IpAddr) -> (r: Option<IpAddr>)
        ensures
            dst.0 == ip::LOOPBACK_BITS ==> r == Some(IpAddr(ip::LOOPBACK_BITS)),
            // otherwise: on the best route's device, the first interface
            // whose subnet covers the destination, else the first
            // interface at all; None when no route, device or interface
            // can serve
            dst.0 != ip::LOOPBACK_BITS ==> match r {
                Some(a) => exists|ri: int|
                    {
                        &&& 0 <= ri < self.routes.routes@.len()
                        &&& crate::route::route_matches(#[trigger] self.routes.routes@[ri], dst)
                        &&& forall|j: int|
                            0 <= j < self.routes.routes@.len() && crate::route::route_matches(
                                #[trigger] self.routes.routes@[j],
                                dst,
                            ) ==> crate::route::popcount(
                                self.routes.routes@[j].mask.0 as int,
                            ) <= crate::route::popcount(self.routes.routes@[ri].mask.0 as int)
                        &&& exists|di: int|
                            {
                                &&& 0 <= di < self.devices@.len()
                                &&& vstd::utf8::encode_utf8(
                                    (#[trigger] self.devices@[di]).name@,
                                ) == vstd::utf8::encode_utf8(self.routes.routes@[ri].dev@)
                                &&& ((exists|k: int|
                                    {
                                        &&& 0 <= k < self.devices@[di].interfaces@.len()
                                        &&& crate::interface::iface_covers(
                                            #[trigger] self.devices@[di].interfaces@[k],
                                            dst,
                                        )
                                        &&& forall|m: int|
                                            0 <= m < k ==> !crate::interface::iface_covers(
                                                #[trigger] self.devices@[di].interfaces@[m],
                                                dst,
                                            )
                                        &&& a.0 == self.devices@[di].interfaces@[k].addr.0
                                    }) || ((forall|k: int|
                                    0 <= k < self.devices@[di].interfaces@.len()
                                        ==> !crate::interface::iface_covers(
                                        #[trigger] self.devices@[di].interfaces@[k],
                                        dst,
                                    )) && self.devices@[di].interfaces@.len() > 0 && a.0
                                    == self.devices@[di].interfaces@[0].addr.0))
                            }
                    },
                None => (forall|j: int|
                    0 <= j < self.routes.routes@.len() ==> !crate::route::route_matches(
                        #[trigger] self.routes.routes@[j],
                        dst,
                    )) || exists|ri: int|
                    {
                        &&& 0 <= ri < self.routes.routes@.len()
                        &&& crate::route::route_matches(#[trigger] self.routes.routes@[ri], dst)
                        &&& ((forall|di: int|
                            0 <= di < self.devices@.len() ==> vstd::utf8::encode_utf8(
                                (#[trigger] self.devices@[di]).name@,
                            ) != vstd::utf8::encode_utf8(self.routes.routes@[ri].dev@)) || (
                        exists|di: int|
                            0 <= di < self.devices@.len() && vstd::utf8::encode_utf8(
                                (#[trigger] self.devices@[di]).name@,
                            ) == vstd::utf8::encode_utf8(self.routes.routes@[ri].dev@) && self.devices@[di].interfaces@.len() == 0))
                    },
            },
    {
        if dst.0 == ip::LOOPBACK_BITS {
            return Some(IpAddr(ip::LOOPBACK_BITS));
        }
        let route_dev = match self.routes.lookup(dst) {
            Some(rt) => self.device_index_by_name_owned(&rt.dev),
            None => None,
        };
        let dev_index = match route_dev {
            Some(i) => i,
            None => {
                return None;
            },
        };
        let dev = &self.devices[dev_index];
        let n = dev.interfaces.len();
        let mut i: usize = 0;
        while i < n
            invariant
                i <= n,
                n == dev.interfaces@.len(),
                dst.0 != ip::LOOPBACK_BITS,
                dev_index < self.devices@.len(),
                *dev == self.devices@[dev_index as int],
                exists|ri: int|
                    {
                        &&& 0 <= ri < self.routes.routes@.len()
                        &&& crate::route::route_matches(#[trigger] self.routes.routes@[ri], dst)
                        &&& forall|j: int|
                            0 <= j < self.routes.routes@.len() && crate::route::route_matches(
                                #[trigger] self.routes.routes@[j],
                                dst,
                            ) ==> crate::route::popcount(
                                self.routes.routes@[j].mask.0 as int,
                            ) <= crate::route::popcount(self.routes.routes@[ri].mask.0 as int)
                        &&& vstd::utf8::encode_utf8(self.devices@[dev_index as int].name@)
                            == vstd::utf8::encode_utf8(self.routes.routes@[ri].dev@)
                    },
                forall|m: int|
                    0 <= m < i ==> !crate::interface::iface_covers(
                        #[trigger] dev.interfaces@[m],
                        dst,
                    ),
            decreases n - i,
        {
            if dev.interfaces[i].covers(dst) {
                return Some(dev.interfaces[i].addr);
            }
            i = i + 1;
        }
        if dev.interfaces.len() > 0 {
            return Some(dev.interfaces[0].addr);
        }
        None
    }

    /// The index of the first device whose name's bytes equal `name`'s,
    /// for a stored string such as a route's device name.
    fn device_index_by_name_owned(&self, name: &String) -> (r: Option<usize>)
        ensures
            match r {
                Some(i) => i < self.devices@.len() && vstd::utf8::encode_utf8(
                    self.devices@[i as int].name@,
                ) == vstd::utf8::encode_utf8(name@) && forall|j: int|
                    0 <= j < i ==> vstd::utf8::encode_utf8((#[trigger] self.devices@[j]).name@)
                        != vstd::utf8::encode_utf8(name@),
                None => forall|i: int|
                    0 <= i < self.devices@.len() ==> vstd::utf8::encode_utf8(
                        (#[trigger] self.devices@[i]).name@,
                    ) != vstd::utf8::encode_utf8(name@),
            },
    {
        let n = self.devices.len();
        let mut i: usize = 0;
        while i < n
            invariant
                i <= n,
                n == self.devices@.len(),
                forall|j: int|
                    0 <= j < i ==> vstd::utf8::encode_utf8((#[trigger] self.devices@[j]).name@)
                        != vstd::utf8::encode_utf8(name@),
            decreases n - i,
        {
            if bytes_eq(self.devices[i].name.as_str().as_bytes(), name.as_str().as_bytes()) {
                return Some(i);
            }
            i = i + 1;
        }
        None
    }

    /// Routed IPv4 egress: loopback short-circuits to the loopback
    /// device; anything else takes the best route, resolves the next
    /// hop's hardware address, and leaves through Ethernet.  A cache
    /// miss broadcasts the ARP request and surfaces as `Timeout`.
    pub fn ip_output_route(&mut self, dst: IpAddr, protocol: u8, payload: &[u8]) -> (r: Result<
        (),
        NetError,
    >)
        requires
            old(self).wf(),
        ensures
            final(self).wf(),
            final(self).tcp.sockets@ == old(self).tcp.sockets@,
            final(self).icmp.sockets@ == old(self).icmp.sockets@,
            final(self).icmp.reply_queue@ == old(self).icmp.reply_queue@,
            // the loopback short-circuit is owed: the packet lands on the
            // loopback receive queue
            (dst.0 == ip::LOOPBACK_BITS && payload@.len() + 20 <= 65535 && exists|i: int|
                0 <= i < old(self).devices@.len() && vstd::utf8::encode_utf8(
                    (#[trigger] old(self).devices@[i]).name@,
                ) == seq![0x6cu8, 0x6fu8] && (forall|j: int|
                0 <= j < old(self).devices@.len() && vstd::utf8::encode_utf8(
                    (#[trigger] old(self).devices@[j]).name@,
                ) == seq![0x6cu8, 0x6fu8] ==> old(self).devices@[j].dev_type
                    == NetDeviceType::Loopback)) ==> (r is Ok && final(self).loopback_rx@.len()
                == old(self).loopback_rx@.len() + 1 && final(self).loopback_rx@.drop_last()
                == old(self).loopback_rx@ && ip::is_ip_packet(
                final(self).loopback_rx@.last()@,
                IpAddr(ip::LOOPBACK_BITS),
                dst,
                protocol,
                payload@,
            )),
            r == Err::<(), NetError>(NetError::NoSuchNode) <==> (dst.0 != ip::LOOPBACK_BITS
                && forall|i: int|
                0 <= i < old(self).routes.routes@.len() ==> !crate::route::route_matches(
                    #[trigger] old(self).routes.routes@[i],
                    dst,
                )),
    {
        if dst.0 == ip::LOOPBACK_BITS {
            proof {
                reveal_strlit("lo");
                broadcast use vstd::string::is_ascii_spec_bytes;

                assert(vstd::string::is_ascii("lo"));
                assert("lo".spec_bytes() =~= seq![0x6cu8, 0x6fu8]);
            }
            let lo = match self.device_index_by_name("lo") {
                Some(i) => i,
                None => {
                    return Err(NetError::DeviceNotFound);
                },
            };
            return self.ip_output(lo, protocol, IpAddr(ip::LOOPBACK_BITS), dst, payload);
        }

        let (next_hop, dev_index) = match self.routes.lookup(dst) {
            Some(rt) => {
                let hop = match rt.gateway {
                    Some(gw) => gw,
                    None => dst,
                };
                let di = match self.device_index_by_name_owned(&rt.dev) {
                    Some(i) => i,
                    None => {
                        return Err(NetError::DeviceNotFound);
                    },
                };
                (hop, di)
            },
            None => {
                return Err(NetError::NoSuchNode);
            },
        };

        let src = match self.get_source_address(dst) {
            Some(s) => s,
            None => {
                return Err(NetError::Unaddressable);
            },
        };

        let mac = match self.resolve_on_device(dev_index, next_hop, src) {
            Ok(m) => m,
            Err(e) => {
                return Err(e);
            },
        };

        let packet = match ip::build_ipv4_packet(src, dst, protocol, payload) {
            Ok(p) => p,
            Err(e) => {
                return Err(e);
            },
        };
        self.ethernet_output(dev_index, mac, ether::ETHERTYPE_IPV4, packet.as_slice())
    }
}

} // verus!

verus! {

impl NetStack {
    /// ARP ingress: validate the fixed Ethernet-and-IPv4 shape; a reply
    /// upserts the sender into the cache; a request whose target is one
    /// of the receiving device's addresses draws a reply from that
    /// interface.
    pub fn arp_input(&mut self, dev_index: usize, data: &[u8]) -> (r: Result<(), NetError>)
        requires
            old(self).wf(),
        ensures
            final(self).wf(),
            final(self).tcp.sockets@ == old(self).tcp.sockets@,
            final(self).icmp.sockets@ == old(self).icmp.sockets@,
            final(self).icmp.reply_queue@ == old(self).icmp.reply_queue@,
            r == Err::<(), NetError>(NetError::PacketTooShort) <==> data@.len()
                < arp::ARP_PACKET_LEN,
            r == Err::<(), NetError>(NetError::UnsupportedProtocol) <==> (data@.len()
                >= arp::ARP_PACKET_LEN && !arp::arp_shape_ok(data@)),
            // a reply upserts the sender into the cache and emits nothing
            (arp::arp_shape_ok(data@) && util::be16_at(data@, 6) == arp::ARP_OP_REPLY) ==> {
                &&& r is Ok
                &&& exists|i: int|
                    0 <= i < final(self).arp.entries@.len() && (#[trigger] final(self).arp.entries@[i]).valid && final(self).arp.entries@[i].ip.0 == util::be32_at(
                        data@,
                        14,
                    ) && final(self).arp.entries@[i].mac.0@ == data@.subrange(8, 14)
                &&& forall|j: int|
                    0 <= j < old(self).arp.entries@.len() && (#[trigger] old(self).arp.entries@[j]).ip.0 != util::be32_at(data@, 14) ==> final(self).arp.entries@[j] == old(self).arp.entries@[j]
                &&& final(self).tx_frames@ == old(self).tx_frames@
                &&& final(self).loopback_rx@ == old(self).loopback_rx@
            },
            // anything else well-formed — an unknown operation, or a
            // request for an address that is not ours — changes nothing
            (arp::arp_shape_ok(data@) && util::be16_at(data@, 6) != arp::ARP_OP_REPLY
                && util::be16_at(data@, 6) != arp::ARP_OP_REQUEST) ==> (r is Ok && final(self).arp.entries@ == old(self).arp.entries@ && final(self).tx_frames@ == old(self).tx_frames@ && final(self).loopback_rx@ == old(self).loopback_rx@),
            (arp::arp_shape_ok(data@) && util::be16_at(data@, 6) == arp::ARP_OP_REQUEST
                && dev_index < old(self).devices@.len() && (forall|k: int|
                0 <= k < old(self).devices@[dev_index as int].interfaces@.len() ==> (
                #[trigger] old(self).devices@[dev_index as int].interfaces@[k]).addr.0
                    != util::be32_at(data@, 24))) ==> (r is Ok && final(self).arp.entries@
                == old(self).arp.entries@ && final(self).tx_frames@ == old(self).tx_frames@
                && final(self).loopback_rx@ == old(self).loopback_rx@),
            // a request for one of the receiving device's addresses is
            // owed a reply from that interface
            (arp::arp_shape_ok(data@) && util::be16_at(data@, 6) == arp::ARP_OP_REQUEST
                && dev_index < old(self).devices@.len() && flag_up(
                old(self).devices@[dev_index as int].flags.0,
            ) && old(self).devices@[dev_index as int].dev_type == NetDeviceType::Ethernet
                && exists|k: int|
                0 <= k < old(self).devices@[dev_index as int].interfaces@.len() && (
                #[trigger] old(self).devices@[dev_index as int].interfaces@[k]).addr.0
                    == util::be32_at(data@, 24)) ==> {
                &&& r is Ok
                &&& final(self).tx_frames@.len() == old(self).tx_frames@.len() + 1
                &&& final(self).tx_frames@.last().dev_index == dev_index
                &&& arp::arp_packet_ok(
                    final(self).tx_frames@.last().bytes@.skip(14),
                    arp::ARP_OP_REPLY,
                    old(self).devices@[dev_index as int].hw_addr.0@,
                    util::be32_at(data@, 24) as u32,
                    data@.subrange(8, 14),
                    util::be32_at(data@, 14) as u32,
                )
            },
    {
        let pkt = match arp::Packet::new_checked(data) {
            Ok(p) => p,
            Err(e) => {
                return Err(e);
            },
        };
        if pkt.htype() != arp::ARP_HTYPE_ETHERNET || pkt.ptype() != arp::ARP_PTYPE_IPV4
            || pkt.hlen() != arp::ARP_HLEN_ETH || pkt.plen() != arp::ARP_PLEN_IPV4 {
            return Err(NetError::UnsupportedProtocol);
        }
        let oper = pkt.oper();
        let sender_ip = IpAddr(pkt.spa());
        let sender_mac = MacAddr(pkt.sha());
        let target_ip = IpAddr(pkt.tpa());

        if oper == arp::ARP_OP_REPLY {
            self.arp.insert(sender_ip, sender_mac);
            proof {
                let i = choose|i: int|
                    0 <= i < self.arp.entries@.len() && (#[trigger] self.arp.entries@[i]).valid
                        && self.arp.entries@[i].ip.0 == sender_ip.0 && self.arp.entries@[i].mac
                        == sender_mac;
                assert(self.arp.entries@[i].mac.0@ == data@.subrange(8, 14));
            }
            return Ok(());
        }
        if oper == arp::ARP_OP_REQUEST {
            if dev_index >= self.devices.len() {
                return Ok(());
            }
            let matched: Option<IpAddr> = match self.devices[dev_index].interface_by_addr(
                target_ip.0,
            ) {
                Some(iface) => Some(iface.addr),
                None => None,
            };
            match matched {
                Some(spa) => {
                    let reply = arp::build_arp_packet(
                        arp::ARP_OP_REPLY,
                        self.devices[dev_index].hw_addr,
                        spa,
                        sender_mac,
                        sender_ip,
                    );
                    let ghost reply_bytes = reply@;
                    let out = self.ethernet_output(
                        dev_index,
                        sender_mac,
                        ether::ETHERTYPE_ARP,
                        reply.as_slice(),
                    );
                    proof {
                        if out is Ok && old(self).devices@[dev_index as int].dev_type
                            == NetDeviceType::Ethernet {
                            assert(self.tx_frames@.last().bytes@.skip(14) =~= reply_bytes);
                        }
                    }
                    return out;
                },
                None => {
                    return Ok(());
                },
            }
        }
        Ok(())
    }

    /// Resolve a next hop on a known device: a cached answer is
    /// returned at once; otherwise the request is broadcast and the
    /// caller sees `Timeout` until the reply has been fed back in.
    #[verifier::rlimit(50)]
    fn resolve_on_device(&mut self, dev_index: usize, target_ip: IpAddr, sender_ip: IpAddr) -> (r:
        Result<MacAddr, NetError>)
        requires
            old(self).wf(),
            dev_index < old(self).devices@.len(),
        ensures
            final(self).wf(),
            // the cache answers exactly when it holds a valid entry
            r is Ok <==> exists|i: int|
                0 <= i < old(self).arp.entries@.len() && (#[trigger] old(self).arp.entries@[i]).valid && old(self).arp.entries@[i].ip.0 == target_ip.0,
            match r {
                Ok(mac) => exists|i: int|
                    0 <= i < old(self).arp.entries@.len() && (#[trigger] old(self).arp.entries@[i]).valid && old(self).arp.entries@[i].ip.0 == target_ip.0
                        && old(self).arp.entries@[i].mac == mac,
                Err(e) => {
                    &&& (e == NetError::NotConnected <==> !flag_up(
                        old(self).devices@[dev_index as int].flags.0,
                    ))
                    &&& (e == NetError::Timeout ==> flag_up(
                        old(self).devices@[dev_index as int].flags.0,
                    ))
                    &&& ((e == NetError::Timeout && old(self).devices@[dev_index as int].dev_type
                        == NetDeviceType::Ethernet) ==> (final(self).tx_frames@.len() == old(self).tx_frames@.len() + 1 && final(self).tx_frames@.drop_last() == old(self).tx_frames@
                        && final(self).tx_frames@.last().dev_index == dev_index && final(self).tx_frames@.last().bytes@ == ether::eth_header_bytes(
                        ether::EthHeader {
                            dst: [0xffu8, 0xffu8, 0xffu8, 0xffu8, 0xffu8, 0xffu8],
                            src: old(self).devices@[dev_index as int].hw_addr.0,
                            ethertype: ether::ETHERTYPE_ARP,
                        },
                    ) + final(self).tx_frames@.last().bytes@.skip(14) && arp::arp_packet_ok(
                        final(self).tx_frames@.last().bytes@.skip(14),
                        arp::ARP_OP_REQUEST,
                        old(self).devices@[dev_index as int].hw_addr.0@,
                        sender_ip.0,
                        seq![0u8, 0u8, 0u8, 0u8, 0u8, 0u8],
                        target_ip.0,
                    ) && final(self).loopback_rx@ == old(self).loopback_rx@))
                    &&& (e == NetError::NotConnected || e == NetError::Timeout)
                },
            },
            r is Ok ==> final(self).tx_frames@ == old(self).tx_frames@ && final(self).loopback_rx@ == old(self).loopback_rx@,
            final(self).tcp.sockets@ == old(self).tcp.sockets@,
            final(self).icmp.sockets@ == old(self).icmp.sockets@,
            final(self).icmp.reply_queue@ == old(self).icmp.reply_queue@,
            final(self).devices@ == old(self).devices@,
            final(self).arp.entries@ == old(self).arp.entries@,
    {
        match self.arp.lookup(target_ip) {
            Some(mac) => {
                return Ok(mac);
            },
            None => {},
        }
        if !self.devices[dev_index].flags().is_up() {
            return Err(NetError::NotConnected);
        }
        let request = arp::build_arp_packet(
            arp::ARP_OP_REQUEST,
            self.devices[dev_index].hw_addr,
            sender_ip,
            MacAddr::zero(),
            target_ip,
        );
        let ghost req_bytes = request@;
        let bcast = MacAddr::broadcast();
        proof {
            assert(bcast.0 =~= [0xffu8, 0xffu8, 0xffu8, 0xffu8, 0xffu8, 0xffu8]);
        }
        match self.ethernet_output(dev_index, bcast, ether::ETHERTYPE_ARP, request.as_slice()) {
            Ok(()) => {
                proof {
                    if old(self).devices@[dev_index as int].dev_type == NetDeviceType::Ethernet {
                        assert(self.tx_frames@.last().bytes@.skip(14) =~= req_bytes);
                    }
                }
                Err(NetError::Timeout)
            },
            Err(e) => Err(e),
        }
    }

    /// Blocking-style resolve, one step at a time: a cache hit returns
    /// at once, emitting nothing — the cache-hit path performs no device
    /// I/O.  A miss checks the device, broadcasts one request, and
    /// returns `Timeout`; the embedder feeds received frames back in and
    /// calls again until its tick budget is spent.
    pub fn resolve(
        &mut self,
        dev_name: &str,
        target_ip: IpAddr,
        sender_ip: IpAddr,
        timeout_ticks: usize,
    ) -> (r: Result<MacAddr, NetError>)
        requires
            old(self).wf(),
        ensures
            final(self).wf(),
            // the cache-hit path answers at once and emits nothing
            r is Ok <==> exists|i: int|
                0 <= i < old(self).arp.entries@.len() && (#[trigger] old(self).arp.entries@[i]).valid && old(self).arp.entries@[i].ip.0 == target_ip.0,
            match r {
                Ok(mac) => {
                    &&& exists|i: int|
                        {
                            &&& 0 <= i < old(self).arp.entries@.len()
                            &&& (#[trigger] old(self).arp.entries@[i]).valid
                            &&& old(self).arp.entries@[i].ip.0 == target_ip.0
                            &&& old(self).arp.entries@[i].mac == mac
                            &&& forall|j: int|
                                0 <= j < i ==> !((#[trigger] old(self).arp.entries@[j]).valid
                                    && old(self).arp.entries@[j].ip.0 == target_ip.0)
                        }
                    &&& final(self).tx_frames@ == old(self).tx_frames@
                    &&& final(self).loopback_rx@ == old(self).loopback_rx@
                },
                Err(e) => {
                    &&& (e == NetError::DeviceNotFound <==> forall|i: int|
                        0 <= i < old(self).devices@.len() ==> vstd::utf8::encode_utf8(
                            (#[trigger] old(self).devices@[i]).name@,
                        ) != dev_name.spec_bytes())
                    &&& (e == NetError::NotConnected ==> exists|i: int|
                        0 <= i < old(self).devices@.len() && vstd::utf8::encode_utf8(
                            (#[trigger] old(self).devices@[i]).name@,
                        ) == dev_name.spec_bytes() && !flag_up(old(self).devices@[i].flags.0))
                    &&& (e == NetError::Timeout ==> exists|i: int|
                        0 <= i < old(self).devices@.len() && vstd::utf8::encode_utf8(
                            (#[trigger] old(self).devices@[i]).name@,
                        ) == dev_name.spec_bytes() && flag_up(old(self).devices@[i].flags.0))
                    // a miss on an up Ethernet device broadcasts exactly
                    // one well-formed request for the target
                    &&& ((e == NetError::Timeout && forall|i: int|
                        0 <= i < old(self).devices@.len() && vstd::utf8::encode_utf8(
                            (#[trigger] old(self).devices@[i]).name@,
                        ) == dev_name.spec_bytes() ==> old(self).devices@[i].dev_type
                            == NetDeviceType::Ethernet) ==> (final(self).tx_frames@.len() == old(self).tx_frames@.len() + 1 && final(self).tx_frames@.drop_last() == old(self).tx_frames@ && exists|i: int|
                        {
                            &&& 0 <= i < old(self).devices@.len()
                            &&& vstd::utf8::encode_utf8((#[trigger] old(self).devices@[i]).name@)
                                == dev_name.spec_bytes()
                            &&& forall|j: int|
                                0 <= j < i ==> vstd::utf8::encode_utf8(
                                    (#[trigger] old(self).devices@[j]).name@,
                                ) != dev_name.spec_bytes()
                            &&& final(self).tx_frames@.last().bytes@ == ether::eth_header_bytes(
                                ether::EthHeader {
                                    dst: [0xffu8, 0xffu8, 0xffu8, 0xffu8, 0xffu8, 0xffu8],
                                    src: old(self).devices@[i].hw_addr.0,
                                    ethertype: ether::ETHERTYPE_ARP,
                                },
                            ) + final(self).tx_frames@.last().bytes@.skip(14)
                            &&& arp::arp_packet_ok(
                                final(self).tx_frames@.last().bytes@.skip(14),
                                arp::ARP_OP_REQUEST,
                                old(self).devices@[i].hw_addr.0@,
                                sender_ip.0,
                                seq![0u8, 0u8, 0u8, 0u8, 0u8, 0u8],
                                target_ip.0,
                            )
                        }))
                    &&& (e == NetError::DeviceNotFound || e == NetError::NotConnected || e
                        == NetError::Timeout)
                },
            },
            // the resolver itself never alters the cache or the devices:
            // only a reply arriving through ingress can
            final(self).arp.entries@ == old(self).arp.entries@,
            final(self).devices@ == old(self).devices@,
    {
        let _ = timeout_ticks;
        match self.arp.lookup(target_ip) {
            Some(mac) => {
                return Ok(mac);
            },
            None => {},
        }
        let dev_index = match self.device_index_by_name(dev_name) {
            Some(i) => i,
            None => {
                return Err(NetError::DeviceNotFound);
            },
        };
        match self.resolve_on_device(dev_index, target_ip, sender_ip) {
            Ok(mac) => Ok(mac),
            Err(e) => Err(e),
        }
    }

    /// Create and open the loopback device: afterwards a device named
    /// `lo`, of loopback type, up and running, stands registered.
    pub fn loopback_init(&mut self) -> (r: Result<(), NetError>)
        requires
            old(self).wf(),
        ensures
            final(self).wf(),
            r is Ok,
            final(self).devices@.len() == old(self).devices@.len() + 1,
            final(self).devices@.drop_last() == old(self).devices@,
            vstd::utf8::encode_utf8(final(self).devices@.last().name@) == seq![0x6cu8, 0x6fu8],
            final(self).devices@.last().dev_type == NetDeviceType::Loopback,
            flag_up(final(self).devices@.last().flags.0),
            final(self).devices@.last().interfaces@.len() == 0,
            // with no other device named `lo`, loopback routing is ready
            (forall|i: int|
                0 <= i < old(self).devices@.len() ==> vstd::utf8::encode_utf8(
                    (#[trigger] old(self).devices@[i]).name@,
                ) != seq![0x6cu8, 0x6fu8]) ==> loopback_ready(final(self).devices@),
    {
        proof {
            reveal_strlit("lo");
            broadcast use vstd::string::is_ascii_spec_bytes;

            assert(vstd::string::is_ascii("lo"));
            assert("lo".spec_bytes() =~= seq![0x6cu8, 0x6fu8]);
        }
        let mut dev = NetDevice::new(
            NetDeviceConfig {
                name: "lo".to_string(),
                dev_type: NetDeviceType::Loopback,
                mtu: 65535,
                flags: NetDeviceFlags(crate::device::FLAG_LOOPBACK + crate::device::FLAG_BROADCAST),
                header_len: 0,
                addr_len: 0,
                hw_addr: MacAddr::zero(),
            },
        );
        dev.open();
        let _ = self.net_device_register(dev);
        proof {
            if forall|i: int|
                0 <= i < old(self).devices@.len() ==> vstd::utf8::encode_utf8(
                    (#[trigger] old(self).devices@[i]).name@,
                ) != seq![0x6cu8, 0x6fu8] {
                assert forall|j: int|
                    0 <= j < self.devices@.len() && vstd::utf8::encode_utf8(
                        (#[trigger] self.devices@[j]).name@,
                    ) == seq![0x6cu8, 0x6fu8] implies self.devices@[j].dev_type
                    == NetDeviceType::Loopback by {
                    if j < self.devices@.len() - 1 {
                        assert(self.devices@[j] == old(self).devices@[j]);
                    }
                }
            }
        }
        Ok(())
    }

    /// Attach 127.0.0.1/8 to the loopback device.
    pub fn loopback_setup(&mut self) -> (r: Result<(), NetError>)
        requires
            old(self).wf(),
        ensures
            final(self).wf(),
            r is Ok <==> exists|i: int|
                0 <= i < old(self).devices@.len() && vstd::utf8::encode_utf8(
                    (#[trigger] old(self).devices@[i]).name@,
                ) == seq![0x6cu8, 0x6fu8],
            r is Ok ==> exists|i: int|
                {
                    &&& 0 <= i < old(self).devices@.len()
                    &&& vstd::utf8::encode_utf8((#[trigger] old(self).devices@[i]).name@)
                        == seq![0x6cu8, 0x6fu8]
                    &&& final(self).devices@[i].interfaces@.len() == old(self).devices@[i].interfaces@.len() + 1
                    &&& final(self).devices@[i].interfaces@.last().addr.0 == ip::LOOPBACK_BITS
                    &&& final(self).devices@[i].interfaces@.last().netmask.0 == 0xff00_0000
                    &&& forall|j: int|
                        0 <= j < old(self).devices@.len() && j != i ==> final(self).devices@[j]
                            == old(self).devices@[j]
                },
    {
        proof {
            reveal_strlit("lo");
            broadcast use vstd::string::is_ascii_spec_bytes;

            assert(vstd::string::is_ascii("lo"));
            assert("lo".spec_bytes() =~= seq![0x6cu8, 0x6fu8]);
        }
        let addr = IpAddr(ip::LOOPBACK_BITS);
        let netmask = IpAddr::new(255, 0, 0, 0);
        self.net_interface_setup("lo", addr, netmask)
    }

    /// Add a route.
    pub fn add_route(&mut self, route: Route) -> (r: Result<(), NetError>)
        requires
            old(self).wf(),
        ensures
            final(self).wf(),
            match r {
                Ok(()) => {
                    &&& old(self).routes.routes@.len() < crate::route::ROUTE_CAPACITY
                    &&& final(self).routes.routes@ == old(self).routes.routes@.push(route)
                },
                Err(e) => e == NetError::StorageFull && old(self).routes.routes@.len()
                    >= crate::route::ROUTE_CAPACITY,
            },
    {
        self.routes.add_route(route)
    }

    /// The best route for a destination: the matching entry with the
    /// greatest prefix length; among equals, the earliest added.
    pub fn lookup(&self, dst: IpAddr) -> (r: Option<&Route>)
        ensures
            match r {
                Some(rt) => exists|i: int|
                    {
                        &&& 0 <= i < self.routes.routes@.len()
                        &&& *rt == self.routes.routes@[i]
                        &&& crate::route::route_matches(#[trigger] self.routes.routes@[i], dst)
                        &&& forall|j: int|
                            0 <= j < self.routes.routes@.len() && crate::route::route_matches(
                                #[trigger] self.routes.routes@[j],
                                dst,
                            ) ==> crate::route::popcount(
                                self.routes.routes@[j].mask.0 as int,
                            ) <= crate::route::popcount(self.routes.routes@[i].mask.0 as int)
                    },
                None => forall|i: int|
                    0 <= i < self.routes.routes@.len() ==> !crate::route::route_matches(
                        #[trigger] self.routes.routes@[i],
                        dst,
                    ),
            },
    {
        self.routes.lookup(dst)
    }
}

} // verus!

verus! {

impl NetStack {
    /// ICMP ingress: verify the checksum; answer an echo request with an
    /// echo reply through routed egress; record echo replies and
    /// destination-unreachable notices for waiting callers; and hand a
    /// copy of every datagram to every open raw socket.
    pub fn icmp_input(&mut self, src: IpAddr, dst: IpAddr, data: &[u8]) -> (r: Result<
        (),
        NetError,
    >)
        requires
            old(self).wf(),
            data@.len() <= 0xffff,
        ensures
            final(self).wf(),
            data@.len() < icmp::ICMP_HEADER_SIZE ==> r == Err::<(), NetError>(
                NetError::PacketTooShort,
            ),
            data@.len() >= icmp::ICMP_HEADER_SIZE && util::checksum_spec(data@) != 0 ==> r
                == Err::<(), NetError>(NetError::ChecksumError),
            (data@.len() >= icmp::ICMP_HEADER_SIZE && util::checksum_spec(data@) == 0 && data@[0]
                != 0 && data@[0] != 3 && data@[0] != 8) ==> r == Err::<(), NetError>(
                NetError::UnsupportedProtocol,
            ),
            // every checksum-valid datagram fans out to every open raw
            // socket
            (data@.len() >= icmp::ICMP_HEADER_SIZE && util::checksum_spec(data@) == 0) ==> forall|
                i: int,
            |
                0 <= i < old(self).icmp.sockets@.len() && old(self).icmp.sockets@[i] is Some ==> ((
                #[trigger] final(self).icmp.sockets@[i]) is Some && final(self).icmp.sockets@[i]->0.recv_queue@.len() == old(self).icmp.sockets@[i]->0.recv_queue@.len() + 1
                    && final(self).icmp.sockets@[i]->0.recv_queue@.last().src == src && final(self).icmp.sockets@[i]->0.recv_queue@.last().data@ == data@),
            // an echo reply is recorded for waiting callers
            (data@.len() >= icmp::ICMP_HEADER_SIZE && util::checksum_spec(data@) == 0 && data@[0]
                == 0) ==> (r is Ok && final(self).icmp.reply_queue@.len() == old(self).icmp.reply_queue@.len() + 1 && final(self).icmp.reply_queue@.last().src == src
                && final(self).icmp.reply_queue@.last().id == util::be16_at(data@, 4) && final(self).icmp.reply_queue@.last().seq == util::be16_at(data@, 6) && final(self).icmp.reply_queue@.last().payload@ == data@.skip(8) && final(self).icmp.reply_queue@.last().kind == IcmpReplyKind::Echo),
            // a destination-unreachable notice about one of our echoes
            // is recorded for waiting callers
            (data@.len() >= icmp::ICMP_HEADER_SIZE && util::checksum_spec(data@) == 0 && data@[0]
                == 3 && data@.skip(8).len() >= 28 && data@.skip(8)[9] == ip::PROTO_ICMP) ==> (r
                is Ok && final(self).icmp.reply_queue@.len() == old(self).icmp.reply_queue@.len()
                + 1 && final(self).icmp.reply_queue@.last().src == src && final(self).icmp.reply_queue@.last().id == util::be16_at(data@.skip(8), 24) && final(self).icmp.reply_queue@.last().seq == util::be16_at(data@.skip(8), 26) && final(self).icmp.reply_queue@.last().kind == IcmpReplyKind::Unreachable(data@[1])),
            // an echo request is owed a well-formed reply through the
            // loopback short-circuit
            (data@.len() >= icmp::ICMP_HEADER_SIZE && data@.len() <= 65507 && util::checksum_spec(
                data@,
            ) == 0 && data@[0] == 8 && src.0 == ip::LOOPBACK_BITS && (exists|i: int|
                0 <= i < old(self).devices@.len() && vstd::utf8::encode_utf8(
                    (#[trigger] old(self).devices@[i]).name@,
                ) == seq![0x6cu8, 0x6fu8]) && (forall|j: int|
                0 <= j < old(self).devices@.len() && vstd::utf8::encode_utf8(
                    (#[trigger] old(self).devices@[j]).name@,
                ) == seq![0x6cu8, 0x6fu8] ==> old(self).devices@[j].dev_type
                    == NetDeviceType::Loopback)) ==> {
                &&& r is Ok
                &&& final(self).loopback_rx@.len() == old(self).loopback_rx@.len() + 1
                &&& final(self).loopback_rx@.drop_last() == old(self).loopback_rx@
                &&& echo_reply_packet_ok(final(self).loopback_rx@.last()@, src, data@)
            },
    {
        if data.len() < icmp::ICMP_HEADER_SIZE {
            return Err(NetError::PacketTooShort);
        }
        if !util::verify_checksum(data) {
            return Err(NetError::ChecksumError);
        }

        let msg_type = data[0];
        let code = data[1];
        let id = util::read_be16(data, 4);
        let seq = util::read_be16(data, 6);
        let payload = vstd::slice::slice_subrange(data, icmp::ICMP_HEADER_SIZE, data.len());
        let now_ticks = self.now_ticks;

        self.icmp.fan_out(src, data);

        if msg_type == 8 {
            // echo request: the reply swaps source and destination, so
            // it travels back to where the request came from
            let reply = icmp::build_icmp_echo(0, id, seq, payload);
            let ghost reply_bytes = reply@;
            let out = self.ip_output_route(src, ip::PROTO_ICMP, reply.as_slice());
            proof {
                assert(data@.subrange(8, data@.len() as int) =~= data@.skip(8));
                if out is Ok && self.loopback_rx@.len() == old(self).loopback_rx@.len() + 1 {
                    let b = self.loopback_rx@.last()@;
                    if ip::is_ip_packet(b, IpAddr(ip::LOOPBACK_BITS), src, ip::PROTO_ICMP, reply_bytes) {
                        reveal(ip::is_ip_packet);
                        assert(b.subrange(20, b.len() as int) == reply_bytes);
                        assert(reply_bytes.skip(8) =~= data@.skip(8));
                    }
                }
            }
            return out;
        }
        if msg_type == 0 {
            proof {
                assert(data@.subrange(8, data@.len() as int) =~= data@.skip(8));
            }
            return self.icmp.icmp_notify_reply(
                src,
                id,
                seq,
                payload,
                IcmpReplyKind::Echo,
                now_ticks,
            );
        }
        if msg_type == 3 {
            if payload.len() < 28 {
                return Err(NetError::PacketTooShort);
            }
            let inner_protocol = payload[9];
            if inner_protocol != ip::PROTO_ICMP {
                return Err(NetError::UnsupportedProtocol);
            }
            proof {
                assert(data@.subrange(8, data@.len() as int) =~= data@.skip(8));
            }
            let orig_id = util::read_be16(payload, 24);
            let orig_seq = util::read_be16(payload, 26);
            return self.icmp.icmp_notify_reply(
                src,
                orig_id,
                orig_seq,
                payload,
                IcmpReplyKind::Unreachable(code),
                now_ticks,
            );
        }
        Err(NetError::UnsupportedProtocol)
    }

    /// Send an echo reply from `src` to `dst` through the loopback
    /// device, as the echo responder's replies travel.
    pub fn icmp_echo_reply(
        &mut self,
        src: IpAddr,
        dst: IpAddr,
        id: u16,
        seq: u16,
        payload: &[u8],
    ) -> (r: Result<(), NetError>)
        requires
            old(self).wf(),
        ensures
            final(self).wf(),
            (payload@.len() <= 65000 && loopback_ready(old(self).devices@)) ==> {
                &&& r is Ok
                &&& final(self).loopback_rx@.len() == old(self).loopback_rx@.len() + 1
                &&& final(self).loopback_rx@.drop_last() == old(self).loopback_rx@
                &&& ip::is_ip_packet(
                    final(self).loopback_rx@.last()@,
                    src,
                    dst,
                    ip::PROTO_ICMP,
                    final(self).loopback_rx@.last()@.skip(20),
                )
                &&& icmp::echo_message_ok(
                    final(self).loopback_rx@.last()@.skip(20),
                    0,
                    id,
                    seq,
                    payload@,
                )
            },
    {
        let packet = icmp::build_icmp_echo(0, id, seq, payload);
        let ghost reply_bytes = packet@;
        proof {
            reveal_strlit("lo");
            broadcast use vstd::string::is_ascii_spec_bytes;

            assert(vstd::string::is_ascii("lo"));
            assert("lo".spec_bytes() =~= seq![0x6cu8, 0x6fu8]);
        }
        let lo = match self.device_index_by_name("lo") {
            Some(i) => i,
            None => {
                return Err(NetError::DeviceNotFound);
            },
        };
        let out = self.ip_output(lo, ip::PROTO_ICMP, src, dst, packet.as_slice());
        proof {
            if out is Ok && self.loopback_rx@.len() == old(self).loopback_rx@.len() + 1 {
                let b = self.loopback_rx@.last()@;
                if ip::is_ip_packet(b, src, dst, ip::PROTO_ICMP, reply_bytes) {
                    reveal(ip::is_ip_packet);
                    assert(b.subrange(20, b.len() as int) == reply_bytes);
                    assert(b.skip(20) =~= b.subrange(20, b.len() as int));
                }
            }
        }
        out
    }

    /// Send an echo request through routed egress; over loopback its
    /// delivery is owed.
    pub fn icmp_echo_request(&mut self, dst: IpAddr, id: u16, seq: u16, payload: &[u8]) -> (r:
        Result<(), NetError>)
        requires
            old(self).wf(),
        ensures
            final(self).wf(),
            (dst.0 == ip::LOOPBACK_BITS && payload@.len() <= 65000 && loopback_ready(
                old(self).devices@,
            )) ==> {
                &&& r is Ok
                &&& final(self).loopback_rx@.len() == old(self).loopback_rx@.len() + 1
                &&& final(self).loopback_rx@.drop_last() == old(self).loopback_rx@
                &&& ip::is_ip_packet(
                    final(self).loopback_rx@.last()@,
                    IpAddr(ip::LOOPBACK_BITS),
                    dst,
                    ip::PROTO_ICMP,
                    final(self).loopback_rx@.last()@.skip(20),
                )
                &&& icmp::echo_message_ok(
                    final(self).loopback_rx@.last()@.skip(20),
                    8,
                    id,
                    seq,
                    payload@,
                )
            },
    {
        let packet = icmp::build_icmp_echo(8, id, seq, payload);
        let ghost request_bytes = packet@;
        let out = self.ip_output_route(dst, ip::PROTO_ICMP, packet.as_slice());
        proof {
            if out is Ok && self.loopback_rx@.len() == old(self).loopback_rx@.len() + 1 {
                let b = self.loopback_rx@.last()@;
                if ip::is_ip_packet(b, IpAddr(ip::LOOPBACK_BITS), dst, ip::PROTO_ICMP, request_bytes) {
                    reveal(ip::is_ip_packet);
                    assert(b.subrange(20, b.len() as int) == request_bytes);
                    assert(b.skip(20) =~= b.subrange(20, b.len() as int));
                }
            }
        }
        out
    }

    /// Record a reply for waiting callers.
    pub fn icmp_notify_reply(
        &mut self,
        src: IpAddr,
        id: u16,
        seq: u16,
        payload: &[u8],
        kind: IcmpReplyKind,
    ) -> (r: Result<(), NetError>)
        requires
            old(self).wf(),
        ensures
            final(self).wf(),
            r is Ok,
            final(self).icmp.reply_queue@.len() == old(self).icmp.reply_queue@.len() + 1,
            final(self).icmp.reply_queue@.drop_last() == old(self).icmp.reply_queue@,
            final(self).icmp.reply_queue@.last().src == src,
            final(self).icmp.reply_queue@.last().id == id,
            final(self).icmp.reply_queue@.last().seq == seq,
            final(self).icmp.reply_queue@.last().payload@ == payload@,
            final(self).icmp.reply_queue@.last().kind == kind,
    {
        let now_ticks = self.now_ticks;
        self.icmp.icmp_notify_reply(src, id, seq, payload, kind, now_ticks)
    }

    /// Take the oldest queued reply carrying `id`; `Timeout` when none
    /// has arrived yet.
    pub fn icmp_recv_reply(&mut self, id: u16, timeout_ms: u64) -> (r: Result<IcmpReply, NetError>)
        requires
            old(self).wf(),
        ensures
            final(self).wf(),
            match r {
                Ok(reply) => exists|i: int|
                    {
                        &&& 0 <= i < old(self).icmp.reply_queue@.len()
                        &&& (#[trigger] old(self).icmp.reply_queue@[i]).id == id
                        &&& forall|j: int|
                            0 <= j < i ==> (#[trigger] old(self).icmp.reply_queue@[j]).id != id
                        &&& reply.id == id
                        &&& reply.src == old(self).icmp.reply_queue@[i].src
                        &&& reply.seq == old(self).icmp.reply_queue@[i].seq
                        &&& reply.payload@ == old(self).icmp.reply_queue@[i].payload@
                        &&& reply.kind == old(self).icmp.reply_queue@[i].kind
                        &&& final(self).icmp.reply_queue@ == old(self).icmp.reply_queue@.remove(i)
                    },
                Err(e) => {
                    &&& e == NetError::Timeout
                    &&& forall|i: int|
                        0 <= i < old(self).icmp.reply_queue@.len() ==> (#[trigger] old(self).icmp.reply_queue@[i]).id != id
                    &&& final(self).icmp.reply_queue@ == old(self).icmp.reply_queue@
                },
            },
    {
        self.icmp.icmp_recv_reply(id, timeout_ms)
    }

    /// Claim a raw ICMP socket.
    pub fn icmp_socket_alloc(&mut self) -> (r: Result<usize, NetError>)
        requires
            old(self).wf(),
        ensures
            final(self).wf(),
            match r {
                Ok(i) => {
                    &&& i < old(self).icmp.sockets@.len()
                    &&& old(self).icmp.sockets@[i as int] is None
                    &&& final(self).icmp.sockets@[i as int] is Some
                    &&& final(self).icmp.sockets@[i as int]->0.recv_queue@.len() == 0
                },
                Err(e) => e == NetError::NoSocketAvailable && forall|j: int|
                    0 <= j < old(self).icmp.sockets@.len() ==> (#[trigger] old(self).icmp.sockets@[j]) is Some,
            },
    {
        self.icmp.socket_alloc()
    }

    /// Release a raw ICMP socket; a second free of the same index is
    /// `InvalidSocketIndex`.
    pub fn icmp_socket_free(&mut self, index: usize) -> (r: Result<(), NetError>)
        requires
            old(self).wf(),
        ensures
            final(self).wf(),
            match r {
                Ok(()) => {
                    &&& index < old(self).icmp.sockets@.len()
                    &&& old(self).icmp.sockets@[index as int] is Some
                    &&& final(self).icmp.sockets@[index as int] is None
                },
                Err(e) => e == NetError::InvalidSocketIndex && (index >= old(self).icmp.sockets@.len() || old(self).icmp.sockets@[index as int] is None),
            },
    {
        self.icmp.socket_free(index)
    }

    /// Send raw ICMP bytes: recompute the checksum over a copy of the
    /// caller's buffer and emit through routed egress.
    pub fn icmp_socket_sendto(&mut self, index: usize, dst: IpAddr, data: &[u8]) -> (r: Result<
        (),
        NetError,
    >)
        requires
            old(self).wf(),
            data@.len() <= 0xffff,
        ensures
            final(self).wf(),
            index >= old(self).icmp.sockets@.len() ==> r == Err::<(), NetError>(
                NetError::InvalidSocketIndex,
            ),
            (index < old(self).icmp.sockets@.len() && old(self).icmp.sockets@[index as int] is None)
                ==> r == Err::<(), NetError>(NetError::InvalidSocketState),
            (index < old(self).icmp.sockets@.len() && old(self).icmp.sockets@[index as int] is Some
                && data@.len() < icmp::ICMP_HEADER_SIZE) ==> r == Err::<(), NetError>(
                NetError::PacketTooShort,
            ),
            // toward loopback, the caller's bytes go out with only the
            // checksum field rewritten, and the rewrite verifies
            (index < old(self).icmp.sockets@.len() && old(self).icmp.sockets@[index as int] is Some
                && icmp::ICMP_HEADER_SIZE <= data@.len() <= 65000 && dst.0 == ip::LOOPBACK_BITS
                && loopback_ready(old(self).devices@)) ==> {
                &&& r is Ok
                &&& final(self).loopback_rx@.len() == old(self).loopback_rx@.len() + 1
                &&& final(self).loopback_rx@.drop_last() == old(self).loopback_rx@
                &&& final(self).loopback_rx@.last()@.skip(20).len() == data@.len()
                &&& forall|j: int|
                    0 <= j < data@.len() && j != 2 && j != 3 ==> final(self).loopback_rx@.last()@.skip(20)[j] == data@[j]
                &&& util::checksum_spec(final(self).loopback_rx@.last()@.skip(20)) == 0
            },
    {
        match self.icmp.sockets.get(crate::socket::SocketHandle::new(index)) {
            Ok(_) => {},
            Err(e) => {
                return Err(e);
            },
        }
        if data.len() < icmp::ICMP_HEADER_SIZE {
            return Err(NetError::PacketTooShort);
        }
        let mut packet = vstd::slice::slice_to_vec(data);
        util::write_be16(&mut packet, 2, 0);
        let ghost zeroed = packet@;
        let c = util::checksum(packet.as_slice());
        util::write_be16(&mut packet, 2, c);
        proof {
            util::lemma_checksum_insert(zeroed, 2);
        }
        let ghost msg = packet@;
        let out = self.ip_output_route(dst, ip::PROTO_ICMP, packet.as_slice());
        proof {
            if out is Ok && self.loopback_rx@.len() == old(self).loopback_rx@.len() + 1 {
                let b = self.loopback_rx@.last()@;
                if ip::is_ip_packet(b, IpAddr(ip::LOOPBACK_BITS), dst, ip::PROTO_ICMP, msg) {
                    reveal(ip::is_ip_packet);
                    assert(b.subrange(20, b.len() as int) == msg);
                    assert(b.skip(20) =~= b.subrange(20, b.len() as int));
                }
            }
        }
        out
    }

    /// Pop the oldest raw datagram of a socket into `buf`; `WouldBlock`
    /// while none waits.
    pub fn icmp_socket_recvfrom(&mut self, index: usize, buf: &mut Vec<u8>) -> (r: Result<
        (usize, IpAddr),
        NetError,
    >)
        requires
            old(self).wf(),
        ensures
            final(self).wf(),
            match r {
                Ok((len, src)) => {
                    &&& index < old(self).icmp.sockets@.len()
                    &&& old(self).icmp.sockets@[index as int] is Some
                    &&& old(self).icmp.sockets@[index as int]->0.recv_queue@.len() > 0
                    &&& final(buf)@.subrange(0, len as int) == old(self).icmp.sockets@[index as int]->0.recv_queue@[0].data@.take(len as int)
                    &&& src == old(self).icmp.sockets@[index as int]->0.recv_queue@[0].src
                },
                Err(e) => {
                    &&& (e == NetError::WouldBlock ==> old(self).icmp.sockets@[index as int]->0.recv_queue@.len() == 0)
                    &&& (e == NetError::InvalidSocketIndex ==> index >= old(self).icmp.sockets@.len())
                    &&& (e == NetError::InvalidSocketState ==> index < old(self).icmp.sockets@.len() && old(self).icmp.sockets@[index as int] is None)
                    &&& (e == NetError::InvalidSocketIndex || e == NetError::InvalidSocketState
                        || e == NetError::WouldBlock)
                },
            },
            (index < old(self).icmp.sockets@.len() && old(self).icmp.sockets@[index as int] is Some
                && old(self).icmp.sockets@[index as int]->0.recv_queue@.len() > 0) ==> r is Ok,
    {
        self.icmp.socket_recvfrom(index, buf)
    }
}

} // verus!

verus! {

impl NetStack {
    /// Claim a UDP socket slot.
    pub fn udp_pcb_alloc(&mut self) -> (r: Result<usize, NetError>)
        requires
            old(self).wf(),
        ensures
            final(self).wf(),
            match r {
                Ok(i) => {
                    &&& i < old(self).udp.pcbs@.len()
                    &&& old(self).udp.pcbs@[i as int].state == crate::udp::UdpState::Free
                    &&& final(self).udp.pcbs@[i as int].state == crate::udp::UdpState::Open
                    &&& final(self).udp.pcbs@[i as int].recv_queue@.len() == 0
                },
                Err(e) => e == NetError::NoSocketAvailable && forall|j: int|
                    0 <= j < old(self).udp.pcbs@.len() ==> (#[trigger] old(self).udp.pcbs@[j]).state == crate::udp::UdpState::Open,
            },
    {
        self.udp.udp_pcb_alloc()
    }

    /// Release a UDP socket slot.
    pub fn udp_pcb_release(&mut self, index: usize) -> (r: Result<(), NetError>)
        requires
            old(self).wf(),
        ensures
            final(self).wf(),
            match r {
                Ok(()) => {
                    &&& index < old(self).udp.pcbs@.len()
                    &&& old(self).udp.pcbs@[index as int].state == crate::udp::UdpState::Open
                    &&& final(self).udp.pcbs@[index as int].state == crate::udp::UdpState::Free
                },
                Err(e) => e == NetError::InvalidSocketIndex && (index >= old(self).udp.pcbs@.len()
                    || old(self).udp.pcbs@[index as int].state == crate::udp::UdpState::Free),
            },
    {
        self.udp.udp_pcb_release(index)
    }

    /// Bind a UDP socket.  An explicit port collision is `PortInUse`;
    /// port zero draws a fresh ephemeral port in the dynamic range,
    /// unique across open sockets.
    pub fn udp_bind(&mut self, index: usize, local: UdpEndpoint) -> (r: Result<
        UdpEndpoint,
        NetError,
    >)
        requires
            old(self).wf(),
        ensures
            final(self).wf(),
            (index < old(self).udp.pcbs@.len() && old(self).udp.pcbs@[index as int].state
                == crate::udp::UdpState::Open && local.port != 0 && !crate::udp::bind_conflict(
                old(self).udp.pcbs@,
                index as int,
                local,
            )) ==> r is Ok,
            (index < old(self).udp.pcbs@.len() && old(self).udp.pcbs@[index as int].state
                == crate::udp::UdpState::Open && local.port == 0 && !(forall|p: int|
                crate::udp::UDP_SOURCE_PORT_MIN <= p <= crate::udp::UDP_SOURCE_PORT_MAX
                    ==> #[trigger] crate::udp::port_taken(
                    old(self).udp.pcbs@,
                    index as int,
                    p as u16,
                ))) ==> r is Ok,
            match r {
                Ok(bound) => {
                    &&& index < old(self).udp.pcbs@.len()
                    &&& final(self).udp.pcbs@[index as int].local == bound
                    &&& bound.addr == local.addr
                    &&& (local.port != 0 ==> bound.port == local.port && !crate::udp::bind_conflict(
                        old(self).udp.pcbs@,
                        index as int,
                        local,
                    ))
                    &&& (local.port == 0 ==> crate::udp::UDP_SOURCE_PORT_MIN <= bound.port
                        <= crate::udp::UDP_SOURCE_PORT_MAX && !crate::udp::port_taken(
                        old(self).udp.pcbs@,
                        index as int,
                        bound.port,
                    ))
                },
                Err(e) => {
                    &&& (e == NetError::PortInUse ==> local.port != 0 && crate::udp::bind_conflict(
                        old(self).udp.pcbs@,
                        index as int,
                        local,
                    ))
                    &&& (e == NetError::InvalidSocketIndex || e == NetError::InvalidSocketState
                        || e == NetError::PortInUse || e == NetError::NoPortAvailable)
                },
            },
    {
        self.udp.udp_bind(index, local)
    }

    /// Build and route one datagram from `src` to `dst`; over loopback
    /// its delivery is owed.
    pub fn udp_output(&mut self, src: UdpEndpoint, dst: UdpEndpoint, data: &[u8]) -> (r: Result<
        (),
        NetError,
    >)
        requires
            old(self).wf(),
        ensures
            final(self).wf(),
            data@.len() + crate::udp::UDP_HEADER_LEN > 0xffff && (src.addr.0 != 0 || dst.addr.0
                == ip::LOOPBACK_BITS) ==> r == Err::<(), NetError>(NetError::PacketTooLarge),
            (dst.addr.0 == ip::LOOPBACK_BITS && data@.len() <= 65000 && loopback_ready(
                old(self).devices@,
            )) ==> {
                &&& r is Ok
                &&& final(self).loopback_rx@.len() == old(self).loopback_rx@.len() + 1
                &&& final(self).loopback_rx@.drop_last() == old(self).loopback_rx@
                &&& ip::is_ip_packet(
                    final(self).loopback_rx@.last()@,
                    IpAddr(ip::LOOPBACK_BITS),
                    dst.addr,
                    ip::PROTO_UDP,
                    final(self).loopback_rx@.last()@.skip(20),
                )
                &&& crate::udp::parse_udp_header(
                    final(self).loopback_rx@.last()@.skip(20),
                ).src_port == src.port
                &&& crate::udp::parse_udp_header(
                    final(self).loopback_rx@.last()@.skip(20),
                ).dst_port == dst.port
                &&& crate::udp::parse_udp_header(
                    final(self).loopback_rx@.last()@.skip(20),
                ).length == final(self).loopback_rx@.last()@.skip(20).len()
                &&& crate::udp::parse_udp_header(
                    final(self).loopback_rx@.last()@.skip(20),
                ).checksum != 0
                &&& final(self).loopback_rx@.last()@.skip(20).skip(
                    crate::udp::UDP_HEADER_LEN as int,
                ) == data@
            },
    {
        let src_ip = if src.addr.0 != 0 {
            src.addr
        } else {
            match self.get_source_address(dst.addr) {
                Some(s) => s,
                None => {
                    return Err(NetError::NoSuchNode);
                },
            }
        };
        let packet = match build_udp_datagram(src_ip, src.port, dst.addr, dst.port, data) {
            Ok(p) => p,
            Err(e) => {
                return Err(e);
            },
        };
        let ghost dgram = packet@;
        let out = self.ip_output_route(dst.addr, ip::PROTO_UDP, packet.as_slice());
        proof {
            if out is Ok && self.loopback_rx@.len() == old(self).loopback_rx@.len() + 1 {
                let b = self.loopback_rx@.last()@;
                if ip::is_ip_packet(b, IpAddr(ip::LOOPBACK_BITS), dst.addr, ip::PROTO_UDP, dgram) {
                    reveal(ip::is_ip_packet);
                    assert(b.subrange(20, b.len() as int) == dgram);
                    assert(b.skip(20) =~= b.subrange(20, b.len() as int));
                    assert(dgram.skip(crate::udp::UDP_HEADER_LEN as int) =~= dgram.subrange(
                        crate::udp::UDP_HEADER_LEN as int,
                        dgram.len() as int,
                    ));
                }
            }
        }
        out
    }

    /// Send from a bound socket.
    pub fn udp_sendto(&mut self, index: usize, dst: UdpEndpoint, data: &[u8]) -> (r: Result<
        (),
        NetError,
    >)
        requires
            old(self).wf(),
        ensures
            final(self).wf(),
            index >= old(self).udp.pcbs@.len() ==> r == Err::<(), NetError>(
                NetError::InvalidSocketIndex,
            ),
            (index < old(self).udp.pcbs@.len() && old(self).udp.pcbs@[index as int].state
                == crate::udp::UdpState::Free) ==> r == Err::<(), NetError>(
                NetError::InvalidSocketState,
            ),
            // a bound socket's datagram toward loopback is delivered
            (index < old(self).udp.pcbs@.len() && old(self).udp.pcbs@[index as int].state
                == crate::udp::UdpState::Open && dst.addr.0 == ip::LOOPBACK_BITS && data@.len()
                <= 65000 && loopback_ready(old(self).devices@)) ==> {
                &&& r is Ok
                &&& final(self).loopback_rx@.len() == old(self).loopback_rx@.len() + 1
                &&& final(self).loopback_rx@.drop_last() == old(self).loopback_rx@
                &&& crate::udp::parse_udp_header(
                    final(self).loopback_rx@.last()@.skip(20),
                ).src_port == old(self).udp.pcbs@[index as int].local.port
                &&& crate::udp::parse_udp_header(
                    final(self).loopback_rx@.last()@.skip(20),
                ).dst_port == dst.port
                &&& final(self).loopback_rx@.last()@.skip(20).skip(
                    crate::udp::UDP_HEADER_LEN as int,
                ) == data@
            },
    {
        if index >= self.udp.pcbs.len() {
            return Err(NetError::InvalidSocketIndex);
        }
        if matches!(self.udp.pcbs[index].state, crate::udp::UdpState::Free) {
            return Err(NetError::InvalidSocketState);
        }
        let src = self.udp.pcbs[index].local;
        self.udp_output(src, dst, data)
    }

    /// Pop the oldest received datagram of a socket into `buf`;
    /// `WouldBlock` when nothing waits.
    pub fn udp_recvfrom(&mut self, index: usize, buf: &mut Vec<u8>) -> (r: Result<
        (usize, UdpEndpoint),
        NetError,
    >)
        requires
            old(self).wf(),
        ensures
            final(self).wf(),
            match r {
                Ok((len, foreign)) => {
                    &&& index < old(self).udp.pcbs@.len()
                    &&& old(self).udp.pcbs@[index as int].recv_queue@.len() > 0
                    &&& final(buf)@.subrange(0, len as int) == old(self).udp.pcbs@[index as int].recv_queue@[0].data@.take(len as int)
                    &&& foreign == old(self).udp.pcbs@[index as int].recv_queue@[0].foreign
                },
                Err(e) => {
                    &&& (e == NetError::WouldBlock ==> old(self).udp.pcbs@[index as int].recv_queue@.len() == 0)
                    &&& (e == NetError::InvalidSocketIndex ==> index >= old(self).udp.pcbs@.len())
                    &&& (e == NetError::InvalidSocketState ==> index < old(self).udp.pcbs@.len()
                        && old(self).udp.pcbs@[index as int].state == crate::udp::UdpState::Free)
                    &&& (e == NetError::InvalidSocketIndex || e == NetError::InvalidSocketState
                        || e == NetError::WouldBlock)
                },
            },
            (index < old(self).udp.pcbs@.len() && old(self).udp.pcbs@[index as int].state
                == crate::udp::UdpState::Open && old(self).udp.pcbs@[index as int].recv_queue@.len() > 0) ==> r is Ok,
    {
        self.udp.udp_recvfrom(index, buf)
    }
}

} // verus!

verus! {

impl NetStack {
    /// TCP ingress: run the engine under the table, then emit what it
    /// queued, one segment at a time, with the table released.
    pub fn tcp_input(&mut self, src: IpAddr, dst: IpAddr, data: &[u8]) -> (r: Result<
        (),
        NetError,
    >)
        requires
            old(self).wf(),
            data@.len() <= 0xffff,
        ensures
            final(self).wf(),
            // parse and checksum failures surface exactly
            !tcp_wire::tcp_buffer_ok(data@) ==> r is Err && (r == Err::<(), NetError>(
                NetError::PacketTooShort,
            ) <==> data@.len() < tcp_wire::HEADER_LEN),
            (tcp_wire::tcp_buffer_ok(data@) && tcp_wire::tcp_checksum_fold(src, dst, data@)
                != 0xffff) ==> r == Err::<(), NetError>(NetError::ChecksumError),
            // a segment matching nothing succeeds, leaving every socket
            // as it was: the reset was the whole response
            (tcp_wire::tcp_buffer_ok(data@) && tcp_wire::tcp_checksum_fold(src, dst, data@)
                == 0xffff && (forall|i: int|
                0 <= i < old(self).tcp.sockets@.len() && old(self).tcp.sockets@[i] is Some
                    ==> !crate::tcp::socket::matches_established_spec(
                    (#[trigger] old(self).tcp.sockets@[i])->0,
                    IpEndpoint { addr: dst, port: util::be16_at(data@, 2) as u16 },
                    IpEndpoint { addr: src, port: util::be16_at(data@, 0) as u16 },
                )) && (forall|i: int|
                0 <= i < old(self).tcp.sockets@.len() && old(self).tcp.sockets@[i] is Some
                    ==> !crate::tcp::socket::matches_listen_spec(
                    (#[trigger] old(self).tcp.sockets@[i])->0,
                    IpEndpoint { addr: dst, port: util::be16_at(data@, 2) as u16 },
                ))) ==> (r is Ok && final(self).tcp.sockets@ == old(self).tcp.sockets@),
    {
        let now_ms = self.now_ms;
        let sends = match self.tcp.ingress(src, dst, data, now_ms) {
            Ok(s) => s,
            Err(e) => {
                return Err(e);
            },
        };
        self.emit_segments(sends)
    }

    /// Emit a batch of queued segments through routed egress.
    fn emit_segments(&mut self, sends: Vec<SendRequest>) -> (r: Result<(), NetError>)
        requires
            old(self).wf(),
        ensures
            final(self).wf(),
            r is Ok,
            final(self).tcp.sockets@ == old(self).tcp.sockets@,
            final(self).icmp.sockets@ == old(self).icmp.sockets@,
            final(self).icmp.reply_queue@ == old(self).icmp.reply_queue@,
    {
        let n = sends.len();
        let mut i: usize = 0;
        while i < n
            invariant
                i <= n,
                n == sends@.len(),
                self.wf(),
                self.tcp.sockets@ == old(self).tcp.sockets@,
                self.icmp.sockets@ == old(self).icmp.sockets@,
                self.icmp.reply_queue@ == old(self).icmp.reply_queue@,
            decreases n - i,
        {
            match self.output_segment(&sends[i]) {
                Ok(()) => {},
                Err(_) => {
                    // routed egress may time out on an unresolved next
                    // hop; the retransmit queue covers the loss
                },
            }
            i = i + 1;
        }
        Ok(())
    }

    /// Encode one queued segment and hand it to routed egress.
    #[verifier::rlimit(50)]
    pub fn output_segment(&mut self, req: &SendRequest) -> (r: Result<(), NetError>)
        requires
            old(self).wf(),
        ensures
            final(self).wf(),
            final(self).tcp.sockets@ == old(self).tcp.sockets@,
            final(self).icmp.sockets@ == old(self).icmp.sockets@,
            final(self).icmp.reply_queue@ == old(self).icmp.reply_queue@,
            // toward loopback the encoded segment's delivery is owed
            (req.foreign.addr.0 == ip::LOOPBACK_BITS && req.payload@.len() <= 65000
                && loopback_ready(old(self).devices@)) ==> {
                &&& r is Ok
                &&& final(self).loopback_rx@.len() == old(self).loopback_rx@.len() + 1
                &&& final(self).loopback_rx@.drop_last() == old(self).loopback_rx@
                &&& ip::is_ip_packet(
                    final(self).loopback_rx@.last()@,
                    IpAddr(ip::LOOPBACK_BITS),
                    req.foreign.addr,
                    tcp_wire::PROTOCOL_TCP,
                    final(self).loopback_rx@.last()@.skip(20),
                )
                &&& final(self).loopback_rx@.last()@.skip(20).len() == tcp_wire::HEADER_LEN
                    + req.payload@.len()
                &&& util::be16_at(final(self).loopback_rx@.last()@.skip(20), 0) == req.local.port
                &&& util::be16_at(final(self).loopback_rx@.last()@.skip(20), 2)
                    == req.foreign.port
                &&& util::be32_at(final(self).loopback_rx@.last()@.skip(20), 4) == req.seq
                &&& util::be32_at(final(self).loopback_rx@.last()@.skip(20), 8) == req.ack
                &&& final(self).loopback_rx@.last()@.skip(20)[13] == req.flags
                &&& util::be16_at(final(self).loopback_rx@.last()@.skip(20), 14) == req.wnd
                &&& final(self).loopback_rx@.last()@.skip(20).skip(tcp_wire::HEADER_LEN as int)
                    == req.payload@
            },
    {
        if req.payload.len() > 0xffff - tcp_wire::HEADER_LEN {
            return Err(NetError::PacketTooLarge);
        }
        let total_len = tcp_wire::HEADER_LEN + req.payload.len();
        let mut buf: Vec<u8> = Vec::new();
        let mut i: usize = 0;
        while i < total_len
            invariant
                i <= total_len,
                buf@.len() == i,
            decreases total_len - i,
        {
            buf.push(0);
            i = i + 1;
        }
        let mut packet = tcp_wire::PacketMut::new_unchecked(buf);
        packet.set_src_port(req.local.port);
        packet.set_dst_port(req.foreign.port);
        packet.set_seq_number(req.seq);
        packet.set_ack_number(req.ack);
        packet.set_header_len(tcp_wire::HEADER_LEN);
        packet.set_flags(req.flags);
        packet.set_window_len(req.wnd);
        packet.set_checksum(0);
        packet.set_urg_ptr(0);
        proof {
            assert(util::be16_at(packet@, 0) == req.local.port);
            assert(util::be16_at(packet@, 2) == req.foreign.port);
            assert(util::be32_at(packet@, 4) == req.seq);
            assert(util::be32_at(packet@, 8) == req.ack);
            assert(packet@[13] == req.flags);
            assert(util::be16_at(packet@, 14) == req.wnd);
        }
        packet.set_payload(req.payload.as_slice());
        packet.fill_checksum(req.local.addr, req.foreign.addr);
        proof {
            assert(util::be16_at(packet@, 0) == req.local.port);
            assert(util::be16_at(packet@, 2) == req.foreign.port);
            assert(util::be32_at(packet@, 4) == req.seq);
            assert(util::be32_at(packet@, 8) == req.ack);
            assert(packet@[13] == req.flags);
            assert(util::be16_at(packet@, 14) == req.wnd);
            assert(packet@.subrange(tcp_wire::HEADER_LEN as int, packet@.len() as int)
                =~= req.payload@);
        }
        let bytes = packet.into_bytes();
        let ghost seg_bytes = bytes@;
        let out = self.ip_output_route(req.foreign.addr, tcp_wire::PROTOCOL_TCP, bytes.as_slice());
        proof {
            if out is Ok && self.loopback_rx@.len() == old(self).loopback_rx@.len() + 1 {
                let b = self.loopback_rx@.last()@;
                if ip::is_ip_packet(
                    b,
                    IpAddr(ip::LOOPBACK_BITS),
                    req.foreign.addr,
                    tcp_wire::PROTOCOL_TCP,
                    seg_bytes,
                ) {
                    reveal(ip::is_ip_packet);
                    assert(b.subrange(20, b.len() as int) == seg_bytes);
                    assert(b.skip(20) =~= b.subrange(20, b.len() as int));
                    assert(seg_bytes.skip(tcp_wire::HEADER_LEN as int) =~= seg_bytes.subrange(
                        tcp_wire::HEADER_LEN as int,
                        seg_bytes.len() as int,
                    ));
                }
            }
        }
        out
    }

    /// One timer round of the TCP engine, with its segments emitted: the
    /// twelve-second abort, TIME-WAIT expiry and the due retries all
    /// happen exactly as the engine's poll states.
    pub fn tcp_poll(&mut self) -> (r: Result<(), NetError>)
        requires
            old(self).wf(),
        ensures
            final(self).wf(),
            r is Ok,
            forall|i: int|
                (0 <= i < old(self).tcp.sockets@.len() && old(self).tcp.sockets@[i] is Some
                    && exists|j: int|
                    0 <= j < old(self).tcp.sockets@[i]->0.retransmit@.len() && old(self).now_ms
                        - (#[trigger] old(self).tcp.sockets@[i]->0.retransmit@[j]).first_at
                        >= crate::tcp::socket::RETRANSMIT_DEADLINE_MS) ==> ((#[trigger] final(self).tcp.sockets@[i]) is Some && final(self).tcp.sockets@[i]->0.state
                    == crate::tcp::State::Closed),
            forall|i: int|
                (0 <= i < old(self).tcp.sockets@.len() && (#[trigger] old(self).tcp.sockets@[i]) is Some && old(self).tcp.sockets@[i]->0.state == crate::tcp::State::TimeWait
                    && old(self).tcp.sockets@[i]->0.timewait_deadline is Some && old(self).now_ms
                    >= old(self).tcp.sockets@[i]->0.timewait_deadline->0) ==> (final(self).tcp.sockets@[i] is Some && final(self).tcp.sockets@[i]->0.state
                    == crate::tcp::State::Closed),
            forall|i: int|
                0 <= i < final(self).tcp.sockets@.len() && (#[trigger] final(self).tcp.sockets@[i]) is Some ==> final(self).tcp.sockets@[i]->0.pending@.len() == 0,
    {
        let now_ms = self.now_ms;
        let sends = self.tcp.poll(now_ms);
        let ghost mid = self.tcp.sockets@;
        let out = self.emit_segments(sends);
        proof {
            assert(self.tcp.sockets@ == mid);
        }
        out
    }

    /// Claim a TCP socket slot.
    pub fn tcp_socket_alloc(&mut self) -> (r: Result<usize, NetError>)
        requires
            old(self).wf(),
        ensures
            final(self).wf(),
            match r {
                Ok(i) => {
                    &&& i < old(self).tcp.sockets@.len()
                    &&& old(self).tcp.sockets@[i as int] is None
                    &&& final(self).tcp.sockets@[i as int] is Some
                    &&& final(self).tcp.sockets@[i as int]->0.state == crate::tcp::State::Closed
                },
                Err(e) => e == NetError::NoSocketAvailable,
            },
    {
        self.tcp.socket_alloc()
    }

    /// Release a TCP socket slot.
    pub fn tcp_socket_free(&mut self, index: usize) -> (r: Result<(), NetError>)
        requires
            old(self).wf(),
        ensures
            final(self).wf(),
            match r {
                Ok(()) => {
                    &&& index < old(self).tcp.sockets@.len()
                    &&& old(self).tcp.sockets@[index as int] is Some
                    &&& final(self).tcp.sockets@[index as int] is None
                },
                Err(e) => e == NetError::InvalidSocketIndex,
            },
    {
        self.tcp.socket_free(index)
    }

    /// Pop an established child off a listener's backlog; `WouldBlock`
    /// while none waits.
    pub fn tcp_socket_accept(&mut self, listen_index: usize) -> (r: Result<usize, NetError>)
        requires
            old(self).wf(),
        ensures
            final(self).wf(),
            (listen_index < old(self).tcp.sockets@.len() && old(self).tcp.sockets@[listen_index as int] is Some && old(self).tcp.sockets@[listen_index as int]->0.backlog@.len() > 0 && old(self).tcp.sockets@[listen_index as int]->0.backlog@[0] < old(self).tcp.sockets@.len() && old(self).tcp.sockets@[old(self).tcp.sockets@[listen_index as int]->0.backlog@[0] as int] is Some)
                ==> r is Ok,
            match r {
                Ok(child) => {
                    &&& listen_index < old(self).tcp.sockets@.len()
                    &&& old(self).tcp.sockets@[listen_index as int] is Some
                    &&& old(self).tcp.sockets@[listen_index as int]->0.backlog@.len() > 0
                    &&& child == old(self).tcp.sockets@[listen_index as int]->0.backlog@[0]
                    &&& final(self).tcp.sockets@[child as int] is Some
                    &&& final(self).tcp.sockets@[child as int]->0.parent is None
                    &&& (child != listen_index ==> final(self).tcp.sockets@[listen_index as int]->0.backlog@ == old(self).tcp.sockets@[listen_index as int]->0.backlog@.skip(1))
                },
                Err(e) => {
                    &&& (e == NetError::WouldBlock <==> (listen_index < old(self).tcp.sockets@.len() && old(self).tcp.sockets@[listen_index as int] is Some && old(self).tcp.sockets@[listen_index as int]->0.backlog@.len() == 0))
                    &&& (e == NetError::WouldBlock || e == NetError::InvalidSocketIndex || e
                        == NetError::InvalidSocketState)
                },
            },
    {
        self.tcp.socket_accept(listen_index)
    }

    /// Put a socket into LISTEN on `local`.
    pub fn tcp_listen(&mut self, index: usize, local: IpEndpoint) -> (r: Result<(), NetError>)
        requires
            old(self).wf(),
        ensures
            final(self).wf(),
            match r {
                Ok(()) => {
                    &&& index < old(self).tcp.sockets@.len()
                    &&& old(self).tcp.sockets@[index as int] is Some
                    &&& old(self).tcp.sockets@[index as int]->0.state
                        == crate::tcp::State::Closed
                    &&& final(self).tcp.sockets@[index as int] is Some
                    &&& final(self).tcp.sockets@[index as int]->0.state
                        == crate::tcp::State::Listen
                    &&& final(self).tcp.sockets@[index as int]->0.local == local
                },
                Err(e) => {
                    &&& (e == NetError::SocketAlreadyOpen <==> (index < old(self).tcp.sockets@.len() && old(self).tcp.sockets@[index as int] is Some && old(self).tcp.sockets@[index as int]->0.state != crate::tcp::State::Closed))
                    &&& (e == NetError::InvalidSocketIndex <==> index >= old(self).tcp.sockets@.len())
                    &&& (e == NetError::InvalidSocketState <==> (index < old(self).tcp.sockets@.len() && old(self).tcp.sockets@[index as int] is None))
                    &&& (e == NetError::InvalidSocketIndex || e == NetError::InvalidSocketState
                        || e == NetError::SocketAlreadyOpen)
                },
            },
            (index < old(self).tcp.sockets@.len() && old(self).tcp.sockets@[index as int] is Some
                && old(self).tcp.sockets@[index as int]->0.state == crate::tcp::State::Closed)
                ==> r is Ok,
    {
        match self.tcp.socket_get_mut(index) {
            Ok(socket) => socket.listen(local),
            Err(e) => Err(e),
        }
    }

    /// Open an active connection; wildcards in `local` are filled from
    /// the route table and the ephemeral-port cursor, and the SYN is
    /// emitted.
    pub fn tcp_connect(&mut self, index: usize, local: IpEndpoint, remote: IpEndpoint) -> (r:
        Result<(), NetError>)
        requires
            old(self).wf(),
        ensures
            final(self).wf(),
            match r {
                Ok(()) => {
                    &&& index < old(self).tcp.sockets@.len()
                    &&& old(self).tcp.sockets@[index as int] is Some
                    &&& old(self).tcp.sockets@[index as int]->0.state == crate::tcp::State::Closed
                    &&& final(self).tcp.sockets@[index as int] is Some
                    &&& final(self).tcp.sockets@[index as int]->0.state
                        == crate::tcp::State::SynSent
                    &&& final(self).tcp.sockets@[index as int]->0.foreign == remote
                    // the local endpoint: the caller's values, with
                    // wildcards filled from the route table and the
                    // ephemeral-port cursor
                    &&& final(self).tcp.sockets@[index as int]->0.local.addr.0 != 0
                    &&& (local.addr.0 != 0 ==> final(self).tcp.sockets@[index as int]->0.local.addr == local.addr)
                    &&& (local.addr.0 == 0 && remote.addr.0 == ip::LOOPBACK_BITS ==> final(self).tcp.sockets@[index as int]->0.local.addr.0 == ip::LOOPBACK_BITS)
                    &&& (local.port != 0 ==> final(self).tcp.sockets@[index as int]->0.local.port
                        == local.port)
                    &&& (local.port == 0 ==> crate::tcp::socket::EPHEMERAL_PORT_MIN <= final(self).tcp.sockets@[index as int]->0.local.port
                        <= crate::tcp::socket::EPHEMERAL_PORT_MAX)
                    // the connection is seeded deterministically from the
                    // chosen port, and its SYN was drained for emission
                    &&& final(self).tcp.sockets@[index as int]->0.iss
                        == crate::tcp::socket::initial_iss_spec(
                        final(self).tcp.sockets@[index as int]->0.local.port,
                    )
                    &&& final(self).tcp.sockets@[index as int]->0.snd_una == final(self).tcp.sockets@[index as int]->0.iss
                    &&& final(self).tcp.sockets@[index as int]->0.snd_nxt
                        == vstd::wrapping::u32_specs::wrapping_add(
                        final(self).tcp.sockets@[index as int]->0.iss,
                        1,
                    )
                    &&& final(self).tcp.sockets@[index as int]->0.rcv_wnd == final(self).tcp.sockets@[index as int]->0.rx_capacity
                    &&& final(self).tcp.sockets@[index as int]->0.pending@.len() == 0
                },
                Err(e) => {
                    &&& (e == NetError::SocketAlreadyOpen ==> (index < old(self).tcp.sockets@.len() && old(self).tcp.sockets@[index as int] is Some && old(self).tcp.sockets@[index as int]->0.state != crate::tcp::State::Closed))
                    &&& (e == NetError::InvalidSocketIndex ==> index >= old(self).tcp.sockets@.len())
                    &&& (e == NetError::InvalidSocketState ==> (index < old(self).tcp.sockets@.len() && old(self).tcp.sockets@[index as int] is None))
                    &&& (e == NetError::Unaddressable ==> local.addr.0 == 0)
                    &&& (e == NetError::InvalidSocketIndex || e == NetError::InvalidSocketState
                        || e == NetError::SocketAlreadyOpen || e == NetError::Unaddressable)
                },
            },
            // a concrete local endpoint on a fresh socket is owed a
            // connection attempt
            (index < old(self).tcp.sockets@.len() && old(self).tcp.sockets@[index as int] is Some
                && old(self).tcp.sockets@[index as int]->0.state == crate::tcp::State::Closed
                && local.addr.0 != 0) ==> r is Ok,
    {
        let mut local_ep = local;
        if local_ep.addr.0 == 0 {
            local_ep.addr = match self.get_source_address(remote.addr) {
                Some(a) => a,
                None => {
                    return Err(NetError::Unaddressable);
                },
            };
        }
        if local_ep.addr.0 == 0 {
            return Err(NetError::Unaddressable);
        }
        if local_ep.port == 0 {
            local_ep.port = self.tcp.next_ephemeral_port();
        }
        let now_ms = self.now_ms;
        let result = match self.tcp.socket_get_mut(index) {
            Ok(socket) => {
                let r = socket.connect(local_ep, remote, now_ms);
                match r {
                    Ok(()) => {
                        let mut sends: Vec<SendRequest> = Vec::new();
                        socket.drain_pending(&mut sends);
                        Ok(sends)
                    },
                    Err(e) => Err(e),
                }
            },
            Err(e) => Err(e),
        };
        match result {
            Ok(sends) => self.emit_segments(sends),
            Err(e) => Err(e),
        }
    }

    /// Append bytes to a connection's transmit buffer and flush; the
    /// segments go out through routed egress.
    pub fn tcp_send(&mut self, index: usize, data: &[u8]) -> (r: Result<usize, NetError>)
        requires
            old(self).wf(),
        ensures
            final(self).wf(),
            match r {
                Ok(n) => {
                    &&& index < old(self).tcp.sockets@.len()
                    &&& old(self).tcp.sockets@[index as int] is Some
                    &&& old(self).tcp.sockets@[index as int]->0.can_send_spec()
                    &&& n > 0
                    &&& n == vstd::math::min(
                        data@.len() as int,
                        old(self).tcp.sockets@[index as int]->0.tx_capacity - old(self).tcp.sockets@[index as int]->0.tx_buf@.len(),
                    )
                },
                Err(e) => {
                    &&& ((index < old(self).tcp.sockets@.len() && old(self).tcp.sockets@[index as int] is Some && !old(self).tcp.sockets@[index as int]->0.can_send_spec()) ==> e == NetError::SocketNotOpen)
                    &&& (e == NetError::InvalidSocketIndex <==> index >= old(self).tcp.sockets@.len())
                    &&& (e == NetError::InvalidSocketState <==> (index < old(self).tcp.sockets@.len() && old(self).tcp.sockets@[index as int] is None))
                    &&& (e == NetError::BufferFull ==> (old(self).tcp.sockets@[index as int]->0.tx_buf@.len() == old(self).tcp.sockets@[index as int]->0.tx_capacity || data@.len() == 0))
                    &&& (e == NetError::InvalidSocketIndex || e == NetError::InvalidSocketState
                        || e == NetError::SocketNotOpen || e == NetError::BufferFull)
                },
            },
            (index < old(self).tcp.sockets@.len() && old(self).tcp.sockets@[index as int] is Some
                && old(self).tcp.sockets@[index as int]->0.can_send_spec() && old(self).tcp.sockets@[index as int]->0.tx_buf@.len() < old(self).tcp.sockets@[index as int]->0.tx_capacity && data@.len() > 0) ==> r is Ok,
    {
        let now_ms = self.now_ms;
        let result = match self.tcp.socket_get_mut(index) {
            Ok(socket) => {
                let r = socket.send_slice(data, now_ms);
                match r {
                    Ok(n) => {
                        let mut sends: Vec<SendRequest> = Vec::new();
                        socket.drain_pending(&mut sends);
                        Ok((n, sends))
                    },
                    Err(e) => Err(e),
                }
            },
            Err(e) => Err(e),
        };
        match result {
            Ok((n, sends)) => {
                match self.emit_segments(sends) {
                    Ok(()) => Ok(n),
                    Err(e) => Err(e),
                }
            },
            Err(e) => Err(e),
        }
    }

    /// Drain received bytes of a connection into `buf`.
    pub fn tcp_recv(&mut self, index: usize, buf: &mut Vec<u8>) -> (r: Result<usize, NetError>)
        requires
            old(self).wf(),
        ensures
            final(self).wf(),
            match r {
                Ok(n) => {
                    &&& index < old(self).tcp.sockets@.len()
                    &&& old(self).tcp.sockets@[index as int] is Some
                    &&& n == vstd::math::min(
                        old(buf)@.len() as int,
                        old(self).tcp.sockets@[index as int]->0.rx_buf@.len() as int,
                    )
                    &&& final(buf)@.subrange(0, n as int) == old(self).tcp.sockets@[index as int]->0.rx_buf@.take(n as int)
                },
                Err(e) => {
                    &&& (e == NetError::SocketNotOpen <==> (index < old(self).tcp.sockets@.len() && old(self).tcp.sockets@[index as int] is Some && !old(self).tcp.sockets@[index as int]->0.can_recv_spec()))
                    &&& (e == NetError::InvalidSocketIndex <==> index >= old(self).tcp.sockets@.len())
                    &&& (e == NetError::InvalidSocketState <==> (index < old(self).tcp.sockets@.len() && old(self).tcp.sockets@[index as int] is None))
                    &&& (e == NetError::InvalidSocketIndex || e == NetError::InvalidSocketState
                        || e == NetError::SocketNotOpen)
                },
            },
            (index < old(self).tcp.sockets@.len() && old(self).tcp.sockets@[index as int] is Some
                && old(self).tcp.sockets@[index as int]->0.can_recv_spec()) ==> r is Ok,
    {
        match self.tcp.socket_get_mut(index) {
            Ok(socket) => socket.recv_slice(buf),
            Err(e) => Err(e),
        }
    }

    /// Close a connection; a FIN queued by the close is emitted.
    pub fn tcp_close(&mut self, index: usize) -> (r: Result<(), NetError>)
        requires
            old(self).wf(),
        ensures
            final(self).wf(),
            r is Ok <==> (index < old(self).tcp.sockets@.len() && old(self).tcp.sockets@[index as int] is Some),
            r is Err ==> (r == Err::<(), NetError>(NetError::InvalidSocketIndex) <==> index
                >= old(self).tcp.sockets@.len()) && (r == Err::<(), NetError>(
                NetError::InvalidSocketState,
            ) <==> (index < old(self).tcp.sockets@.len() && old(self).tcp.sockets@[index as int] is None)),
            r is Ok ==> {
                &&& index < old(self).tcp.sockets@.len()
                &&& old(self).tcp.sockets@[index as int] is Some
                &&& final(self).tcp.sockets@[index as int] is Some
                &&& ((old(self).tcp.sockets@[index as int]->0.state == crate::tcp::State::Listen
                    || old(self).tcp.sockets@[index as int]->0.state
                    == crate::tcp::State::SynSent) ==> final(self).tcp.sockets@[index as int]->0.state == crate::tcp::State::Closed)
                &&& ((old(self).tcp.sockets@[index as int]->0.state
                    == crate::tcp::State::SynReceived || old(self).tcp.sockets@[index as int]->0.state == crate::tcp::State::Established) ==> final(self).tcp.sockets@[index as int]->0.state == crate::tcp::State::FinWait1)
                &&& (old(self).tcp.sockets@[index as int]->0.state == crate::tcp::State::CloseWait
                    ==> final(self).tcp.sockets@[index as int]->0.state
                    == crate::tcp::State::LastAck)
            },
    {
        let now_ms = self.now_ms;
        let result = match self.tcp.socket_get_mut(index) {
            Ok(socket) => {
                socket.close(now_ms);
                let mut sends: Vec<SendRequest> = Vec::new();
                socket.drain_pending(&mut sends);
                Ok(sends)
            },
            Err(e) => Err(e),
        };
        match result {
            Ok(sends) => self.emit_segments(sends),
            Err(e) => Err(e),
        }
    }

    /// Ask for a poll round.
    pub fn request_poll(&mut self)
        requires
            old(self).wf(),
        ensures
            final(self).wf(),
            final(self).poll_pending,
    {
        self.poll_pending = true;
    }

    /// Whether a poll round is owed.
    pub fn poll_is_pending(&self) -> (r: bool)
        ensures
            r == self.poll_pending,
    {
        self.poll_pending
    }

    /// One poll round: hand queued loopback bytes back to IP ingress,
    /// then drive the TCP timers.  Work generated during the round sets
    /// the pending flag again; the embedder loops while it stays set.
    pub fn poll(&mut self) -> (r: Result<(), NetError>)
        requires
            old(self).wf(),
        ensures
            final(self).wf(),
            r is Ok,
            // after the round no socket still holds queued output
            forall|i: int|
                0 <= i < final(self).tcp.sockets@.len() && (#[trigger] final(self).tcp.sockets@[i]) is Some ==> final(self).tcp.sockets@[i]->0.pending@.len() == 0,
    {
        let mut batch: Vec<Vec<u8>> = Vec::new();
        std::mem::swap(&mut batch, &mut self.loopback_rx);
        let n = batch.len();
        let mut i: usize = 0;
        while i < n
            invariant
                i <= n,
                n == batch@.len(),
                self.wf(),
            decreases n - i,
        {
            if batch[i].len() <= 0xffff {
                let lo = self.device_index_by_name("lo");
                match lo {
                    Some(dev_index) => {
                        let _ = self.ip_input(dev_index, batch[i].as_slice());
                    },
                    None => {},
                }
            }
            i = i + 1;
        }
        self.tcp_poll()
    }

    /// Run poll rounds while one is owed; the trampoline the embedder
    /// calls after a trap return or inside a blocking loop.
    pub fn poll_if_pending(&mut self, max_rounds: usize) -> (r: Result<(), NetError>)
        requires
            old(self).wf(),
        ensures
            final(self).wf(),
            r is Ok,
            // with nothing owed, nothing happens
            !old(self).poll_pending ==> unchanged_stack_state(*old(self), *final(self)),
            // an owed round runs: afterwards no socket still holds
            // queued output
            (old(self).poll_pending && max_rounds > 0) ==> forall|i: int|
                0 <= i < final(self).tcp.sockets@.len() && (#[trigger] final(self).tcp.sockets@[i]) is Some ==> final(self).tcp.sockets@[i]->0.pending@.len() == 0,
    {
        if max_rounds == 0 || !self.poll_pending {
            return Ok(());
        }
        self.poll_pending = false;
        let _ = self.poll();
        let mut rounds: usize = 1;
        while rounds < max_rounds && self.poll_pending
            invariant
                self.wf(),
                1 <= rounds <= max_rounds,
                forall|i: int|
                    0 <= i < self.tcp.sockets@.len() && (#[trigger] self.tcp.sockets@[i]) is Some
                        ==> self.tcp.sockets@[i]->0.pending@.len() == 0,
            decreases max_rounds - rounds,
        {
            self.poll_pending = false;
            let _ = self.poll();
            rounds = rounds + 1;
        }
        Ok(())
    }
}

} // verus!
