//! UDP: the datagram socket set, bind rules, ephemeral port allocation,
//! checksum and datagram codec.

use vstd::prelude::*;

use crate::err::NetError;
use crate::ip::IpAddr;
use crate::tcp::wire::pseudo_buffer;
use crate::util;
use std::collections::VecDeque;

verus! {

pub const UDP_PROTOCOL: u8 = 17;

pub const UDP_HEADER_LEN: usize = 8;

pub const UDP_SOURCE_PORT_MIN: u16 = 49152;

pub const UDP_SOURCE_PORT_MAX: u16 = 65535;

/// Slots in the UDP socket table.
pub const UDP_PCB_SIZE: usize = 16;

/// The four header fields of a datagram, in host order.
#[derive(Debug, Clone, Copy, PartialEq, Eq, Structural)]
pub struct UdpHeader {
    pub src_port: u16,
    pub dst_port: u16,
    pub length: u16,
    pub checksum: u16,
}

/// A pair of address and port; zero in either is a wildcard.
#[derive(Debug, Clone, Copy, PartialEq, Eq, Structural)]
pub struct UdpEndpoint {
    pub addr: IpAddr,
    pub port: u16,
}

impl UdpEndpoint {
    pub fn new(addr: IpAddr, port: u16) -> (r: Self)
        ensures
            r == (UdpEndpoint { addr, port }),
    {
        UdpEndpoint { addr, port }
    }

    /// The wildcard address with a given port.
    pub fn any(port: u16) -> (r: Self)
        ensures
            r.addr.0 == 0 && r.port == port,
    {
        UdpEndpoint { addr: IpAddr(0), port }
    }
}

/// Whether a socket slot is free or bound.
#[derive(Debug, Clone, Copy, PartialEq, Eq, Structural)]
pub enum UdpState {
    Free,
    Open,
}

/// A datagram queued for a receiver: where it came from and its payload.
pub struct UdpPacket {
    pub foreign: UdpEndpoint,
    pub data: Vec<u8>,
}

/// One UDP socket: its state, local binding and receive queue.
pub struct UdpPcb {
    pub state: UdpState,
    pub local: UdpEndpoint,
    pub recv_queue: VecDeque<UdpPacket>,
}

impl UdpPcb {
    pub fn new() -> (r: Self)
        ensures
            r.state == UdpState::Free,
            r.local.addr.0 == 0 && r.local.port == 0,
            r.recv_queue@.len() == 0,
    {
        UdpPcb {
            state: UdpState::Free,
            local: UdpEndpoint { addr: IpAddr(0), port: 0 },
            recv_queue: VecDeque::new(),
        }
    }
}

/// Whether binding `local` on slot `index` collides with another open
/// socket: same port, and either address is a wildcard or they match.
pub open spec fn bind_conflict(pcbs: Seq<UdpPcb>, index: int, local: UdpEndpoint) -> bool {
    exists|i: int|
        0 <= i < pcbs.len() && i != index && (#[trigger] pcbs[i]).state == UdpState::Open
            && pcbs[i].local.port == local.port && (pcbs[i].local.addr.0 == 0 || local.addr.0 == 0
            || pcbs[i].local.addr.0 == local.addr.0)
}

/// Whether any open socket other than `index` uses `port`.
pub open spec fn port_taken(pcbs: Seq<UdpPcb>, index: int, port: u16) -> bool {
    exists|i: int|
        0 <= i < pcbs.len() && i != index && (#[trigger] pcbs[i]).state == UdpState::Open
            && pcbs[i].local.port == port
}

/// The `k`-th port the ephemeral probe visits when it starts at
/// `start`: the dynamic range walked as a cycle.
pub open spec fn probe_port(start: int, k: int) -> int {
    UDP_SOURCE_PORT_MIN + (start - UDP_SOURCE_PORT_MIN + k) % 16384
}

/// The UDP engine: the socket table and the ephemeral-port cursor.
pub struct Udp {
    pub pcbs: Vec<UdpPcb>,
    pub next_port: u16,
}

impl Udp {
    /// A fresh engine with every slot free.
    pub fn new() -> (r: Self)
        ensures
            r.pcbs@.len() == UDP_PCB_SIZE,
            forall|i: int|
                0 <= i < r.pcbs@.len() ==> (#[trigger] r.pcbs@[i]).state == UdpState::Free,
            r.next_port == UDP_SOURCE_PORT_MIN,
    {
        let mut pcbs: Vec<UdpPcb> = Vec::new();
        let mut i: usize = 0;
        while i < UDP_PCB_SIZE
            invariant
                i <= UDP_PCB_SIZE,
                pcbs@.len() == i,
                forall|j: int| 0 <= j < i ==> (#[trigger] pcbs@[j]).state == UdpState::Free,
            decreases UDP_PCB_SIZE - i,
        {
            pcbs.push(UdpPcb::new());
            i = i + 1;
        }
        Udp { pcbs, next_port: UDP_SOURCE_PORT_MIN }
    }

    /// Claim the lowest free slot; `NoSocketAvailable` when all are open.
    pub fn udp_pcb_alloc(&mut self) -> (r: Result<usize, NetError>)
        ensures
            final(self).pcbs@.len() == old(self).pcbs@.len(),
            match r {
                Ok(i) => {
                    &&& i < old(self).pcbs@.len()
                    &&& old(self).pcbs@[i as int].state == UdpState::Free
                    &&& final(self).pcbs@[i as int].state == UdpState::Open
                    &&& final(self).pcbs@[i as int].recv_queue@.len() == 0
                    &&& final(self).pcbs@[i as int].local == old(self).pcbs@[i as int].local
                    &&& forall|j: int|
                        0 <= j < old(self).pcbs@.len() && j != i ==> final(self).pcbs@[j] == old(
                            self,
                        ).pcbs@[j]
                },
                Err(e) => {
                    &&& e == NetError::NoSocketAvailable
                    &&& forall|j: int|
                        0 <= j < old(self).pcbs@.len() ==> (#[trigger] old(self).pcbs@[j]).state
                            == UdpState::Open
                    &&& final(self).pcbs@ == old(self).pcbs@
                },
            },
    {
        let n = self.pcbs.len();
        let mut i: usize = 0;
        while i < n
            invariant
                i <= n,
                n == self.pcbs@.len(),
                self.pcbs@ == old(self).pcbs@,
                forall|j: int|
                    0 <= j < i ==> (#[trigger] self.pcbs@[j]).state == UdpState::Open,
            decreases n - i,
        {
            if matches!(self.pcbs[i].state, UdpState::Free) {
                let pcb = &mut self.pcbs[i];
                pcb.state = UdpState::Open;
                pcb.recv_queue.clear();
                return Ok(i);
            }
            i = i + 1;
        }
        Err(NetError::NoSocketAvailable)
    }

    /// Release a slot; releasing a free or out-of-range slot is
    /// `InvalidSocketIndex`.
    pub fn udp_pcb_release(&mut self, index: usize) -> (r: Result<(), NetError>)
        ensures
            final(self).pcbs@.len() == old(self).pcbs@.len(),
            match r {
                Ok(()) => {
                    &&& index < old(self).pcbs@.len()
                    &&& old(self).pcbs@[index as int].state == UdpState::Open
                    &&& final(self).pcbs@[index as int].state == UdpState::Free
                    &&& final(self).pcbs@[index as int].recv_queue@.len() == 0
                    &&& forall|j: int|
                        0 <= j < old(self).pcbs@.len() && j != index ==> final(self).pcbs@[j]
                            == old(self).pcbs@[j]
                },
                Err(e) => {
                    &&& e == NetError::InvalidSocketIndex
                    &&& (index >= old(self).pcbs@.len() || old(self).pcbs@[index as int].state
                        == UdpState::Free)
                    &&& final(self).pcbs@ == old(self).pcbs@
                },
            },
    {
        if index >= self.pcbs.len() {
            return Err(NetError::InvalidSocketIndex);
        }
        if matches!(self.pcbs[index].state, UdpState::Free) {
            return Err(NetError::InvalidSocketIndex);
        }
        let pcb = &mut self.pcbs[index];
        pcb.state = UdpState::Free;
        pcb.recv_queue.clear();
        Ok(())
    }

    /// Bind a socket.  An explicit port is rejected with `PortInUse` when
    /// another open socket collides on it; port zero draws a fresh
    /// ephemeral port, unique across open sockets, from the dynamic
    /// range.
    pub fn udp_bind(&mut self, index: usize, local: UdpEndpoint) -> (r: Result<
        UdpEndpoint,
        NetError,
    >)
        ensures
            final(self).pcbs@.len() == old(self).pcbs@.len(),
            match r {
                Ok(bound) => {
                    &&& index < old(self).pcbs@.len()
                    &&& old(self).pcbs@[index as int].state == UdpState::Open
                    &&& final(self).pcbs@[index as int].local == bound
                    &&& final(self).pcbs@[index as int].state == UdpState::Open
                    &&& bound.addr == local.addr
                    &&& forall|j: int|
                        0 <= j < old(self).pcbs@.len() && j != index ==> final(self).pcbs@[j]
                            == old(self).pcbs@[j]
                    &&& (local.port != 0 ==> bound.port == local.port && !bind_conflict(
                        old(self).pcbs@,
                        index as int,
                        local,
                    ))
                    &&& (local.port == 0 ==> UDP_SOURCE_PORT_MIN <= bound.port
                        <= UDP_SOURCE_PORT_MAX && !port_taken(
                        old(self).pcbs@,
                        index as int,
                        bound.port,
                    ))
                },
                Err(e) => {
                    &&& final(self).pcbs@ == old(self).pcbs@
                    &&& (e == NetError::InvalidSocketIndex <==> index >= old(self).pcbs@.len())
                    &&& (e == NetError::InvalidSocketState <==> index < old(self).pcbs@.len()
                        && old(self).pcbs@[index as int].state == UdpState::Free)
                    &&& (e == NetError::PortInUse ==> local.port != 0 && bind_conflict(
                        old(self).pcbs@,
                        index as int,
                        local,
                    ))
                    &&& (e == NetError::NoPortAvailable ==> local.port == 0 && forall|p: int|
                        UDP_SOURCE_PORT_MIN <= p <= UDP_SOURCE_PORT_MAX ==> #[trigger] port_taken(
                            old(self).pcbs@,
                            index as int,
                            p as u16,
                        ))
                    &&& (e == NetError::InvalidSocketIndex || e == NetError::InvalidSocketState
                        || e == NetError::PortInUse || e == NetError::NoPortAvailable)
                },
            },
            // success is owed: an explicit port binds unless it collides,
            // and a wildcard port binds while any ephemeral port is free
            (index < old(self).pcbs@.len() && old(self).pcbs@[index as int].state
                == UdpState::Open && local.port != 0 && !bind_conflict(
                old(self).pcbs@,
                index as int,
                local,
            )) ==> r is Ok,
            (index < old(self).pcbs@.len() && old(self).pcbs@[index as int].state
                == UdpState::Open && local.port == 0 && !(forall|p: int|
                UDP_SOURCE_PORT_MIN <= p <= UDP_SOURCE_PORT_MAX ==> #[trigger] port_taken(
                    old(self).pcbs@,
                    index as int,
                    p as u16,
                ))) ==> r is Ok,
    {
        let n = self.pcbs.len();
        if index >= n {
            return Err(NetError::InvalidSocketIndex);
        }
        if matches!(self.pcbs[index].state, UdpState::Free) {
            return Err(NetError::InvalidSocketState);
        }

        if local.port != 0 {
            let mut i: usize = 0;
            while i < n
                invariant
                    i <= n,
                    n == self.pcbs@.len(),
                    index < n,
                    local.port != 0,
                    old(self).pcbs@[index as int].state == UdpState::Open,
                    self.pcbs@ == old(self).pcbs@,
                    forall|j: int|
                        0 <= j < i && j != index ==> !((#[trigger] self.pcbs@[j]).state
                            == UdpState::Open && self.pcbs@[j].local.port == local.port && (
                        self.pcbs@[j].local.addr.0 == 0 || local.addr.0 == 0
                            || self.pcbs@[j].local.addr.0 == local.addr.0)),
                decreases n - i,
            {
                if i != index && matches!(self.pcbs[i].state, UdpState::Open)
                    && self.pcbs[i].local.port == local.port && (self.pcbs[i].local.addr.0 == 0
                    || local.addr.0 == 0 || self.pcbs[i].local.addr.0 == local.addr.0) {
                    proof {
                        assert(bind_conflict(old(self).pcbs@, index as int, local));
                    }
                    return Err(NetError::PortInUse);
                }
                i = i + 1;
            }
            let pcb = &mut self.pcbs[index];
            pcb.local = local;
            return Ok(local);
        }

        // wildcard port: probe the dynamic range from the cursor,
        // visiting every port once before giving up
        if self.next_port < UDP_SOURCE_PORT_MIN {
            self.next_port = UDP_SOURCE_PORT_MIN;
        }
        let ghost start = self.next_port as int;
        let range: usize = (UDP_SOURCE_PORT_MAX - UDP_SOURCE_PORT_MIN) as usize + 1;
        let mut tries: usize = 0;
        while tries < range
            invariant
                tries <= range,
                range == 16384,
                n == self.pcbs@.len(),
                index < n,
                local.port == 0,
                old(self).pcbs@[index as int].state == UdpState::Open,
                self.pcbs@ == old(self).pcbs@,
                UDP_SOURCE_PORT_MIN <= start <= UDP_SOURCE_PORT_MAX,
                self.next_port == probe_port(start, tries as int),
                forall|k: int|
                    0 <= k < tries ==> port_taken(
                        old(self).pcbs@,
                        index as int,
                        probe_port(start, k) as u16,
                    ),
            decreases range - tries,
        {
            let port = self.next_port;
            proof {
                assert(UDP_SOURCE_PORT_MIN <= probe_port(start, tries as int)
                    <= UDP_SOURCE_PORT_MAX);
            }
            if port == UDP_SOURCE_PORT_MAX {
                self.next_port = UDP_SOURCE_PORT_MIN;
            } else {
                self.next_port = port + 1;
            }
            proof {
                assert(self.next_port == probe_port(start, tries + 1));
            }

            let mut available = true;
            let mut i: usize = 0;
            while i < n
                invariant
                    i <= n,
                    n == self.pcbs@.len(),
                    self.pcbs@ == old(self).pcbs@,
                    index < n,
                    local.port == 0,
                    old(self).pcbs@[index as int].state == UdpState::Open,
                    UDP_SOURCE_PORT_MIN <= port <= UDP_SOURCE_PORT_MAX,
                    !available ==> port_taken(old(self).pcbs@, index as int, port),
                    available ==> forall|j: int|
                        0 <= j < i && j != index ==> !((#[trigger] self.pcbs@[j]).state
                            == UdpState::Open && self.pcbs@[j].local.port == port),
                decreases n - i,
            {
                if i != index && matches!(self.pcbs[i].state, UdpState::Open)
                    && self.pcbs[i].local.port == port {
                    proof {
                        assert(port_taken(self.pcbs@, index as int, port));
                    }
                    available = false;
                }
                i = i + 1;
            }

            if available {
                proof {
                    assert(!port_taken(self.pcbs@, index as int, port));
                }
                let bound = UdpEndpoint { addr: local.addr, port };
                let pcb = &mut self.pcbs[index];
                pcb.local = bound;
                return Ok(bound);
            }
            tries = tries + 1;
        }
        proof {
            // the probe has cycled through the whole dynamic range
            assert forall|p: int|
                UDP_SOURCE_PORT_MIN <= p <= UDP_SOURCE_PORT_MAX implies #[trigger] port_taken(
                old(self).pcbs@,
                index as int,
                p as u16,
            ) by {
                let k = ((p - start) + 16384) % 16384;
                assert(0 <= k < 16384);
                assert(probe_port(start, k) == p);
            }
        }
        Err(NetError::NoPortAvailable)
    }
}

} // verus!

verus! {

/// The pseudo-header checksum of a whole datagram.
pub open spec fn udp_checksum_spec(src: IpAddr, dst: IpAddr, data: Seq<u8>) -> int {
    util::checksum_spec(
        crate::tcp::wire::pseudo_header_bytes(src, dst, UDP_PROTOCOL, data.len() as u16) + data,
    )
}

/// Compute the pseudo-header checksum of a datagram.
pub fn udp_checksum(src: IpAddr, dst: IpAddr, data: &[u8]) -> (r: u16)
    requires
        data@.len() <= 0xffff,
    ensures
        r == udp_checksum_spec(src, dst, data@),
{
    let buf = pseudo_buffer(src, dst, UDP_PROTOCOL, data);
    proof {
        util::lemma_ones_fold_bounds(buf@, 0, 0);
    }
    util::checksum(buf.as_slice())
}

/// A datagram's checksum is accepted when the field is zero (unused), or
/// when the computed sum comes out zero or all ones.
pub open spec fn udp_checksum_ok(src: IpAddr, dst: IpAddr, data: Seq<u8>) -> bool {
    ||| util::be16_at(data, 6) == 0
    ||| udp_checksum_spec(src, dst, data) == 0xffff
    ||| udp_checksum_spec(src, dst, data) == 0
}

/// Verify a datagram's checksum; a zero field means it was not used.
pub fn verify_udp_checksum(src: IpAddr, dst: IpAddr, data: &[u8]) -> (r: bool)
    requires
        UDP_HEADER_LEN <= data@.len() <= 0xffff,
    ensures
        r == udp_checksum_ok(src, dst, data@),
{
    if util::read_be16(data, 6) == 0 {
        return true;
    }
    let csum = udp_checksum(src, dst, data);
    csum == 0xffff || csum == 0
}

/// The header a datagram buffer starts with.
pub open spec fn parse_udp_header(s: Seq<u8>) -> UdpHeader {
    UdpHeader {
        src_port: util::be16_at(s, 0) as u16,
        dst_port: util::be16_at(s, 2) as u16,
        length: util::be16_at(s, 4) as u16,
        checksum: util::be16_at(s, 6) as u16,
    }
}

/// The eight header bytes of a datagram.
pub open spec fn udp_header_bytes(h: UdpHeader) -> Seq<u8> {
    util::be16_bytes(h.src_port) + util::be16_bytes(h.dst_port) + util::be16_bytes(h.length)
        + util::be16_bytes(h.checksum)
}

/// Parsing the serialised bytes of a header gives the header back.
pub proof fn lemma_udp_header_roundtrip(h: UdpHeader)
    ensures
        parse_udp_header(udp_header_bytes(h)) == h,
{
    util::lemma_be16_roundtrip(h.src_port);
    util::lemma_be16_roundtrip(h.dst_port);
    util::lemma_be16_roundtrip(h.length);
    util::lemma_be16_roundtrip(h.checksum);
    let s = udp_header_bytes(h);
    assert(util::be16_at(s, 0) == util::be16_at(util::be16_bytes(h.src_port), 0));
    assert(util::be16_at(s, 2) == util::be16_at(util::be16_bytes(h.dst_port), 0));
    assert(util::be16_at(s, 4) == util::be16_at(util::be16_bytes(h.length), 0));
    assert(util::be16_at(s, 6) == util::be16_at(util::be16_bytes(h.checksum), 0));
}

impl Udp {
    /// Datagram arrival: validate the declared length and the checksum,
    /// then queue the payload on the first socket whose binding covers
    /// the destination.  `NoMatchingSocket` when none does.
    pub fn udp_input(&mut self, src: IpAddr, dst: IpAddr, data: &[u8]) -> (r: Result<
        (),
        NetError,
    >)
        requires
            data@.len() <= 0xffff,
        ensures
            final(self).pcbs@.len() == old(self).pcbs@.len(),
            // delivery is owed for a well-formed datagram that a bound
            // socket covers
            (data@.len() >= UDP_HEADER_LEN && UDP_HEADER_LEN <= util::be16_at(data@, 4)
                <= data@.len() && udp_checksum_ok(src, dst, data@.take(util::be16_at(data@, 4)))
                && exists|i: int|
                0 <= i < old(self).pcbs@.len() && (#[trigger] old(self).pcbs@[i]).state
                    == UdpState::Open && old(self).pcbs@[i].local.port == util::be16_at(data@, 2)
                    && (old(self).pcbs@[i].local.addr.0 == 0 || old(self).pcbs@[i].local.addr.0
                    == dst.0)) ==> r is Ok,
            match r {
                Ok(()) => {
                    &&& data@.len() >= UDP_HEADER_LEN
                    &&& UDP_HEADER_LEN <= util::be16_at(data@, 4) <= data@.len()
                    &&& udp_checksum_ok(src, dst, data@.take(util::be16_at(data@, 4)))
                    // the datagram lands, whole, on the first socket whose
                    // binding covers the destination; nothing else changes
                    &&& exists|i: int|
                        {
                            &&& 0 <= i < old(self).pcbs@.len()
                            &&& (#[trigger] old(self).pcbs@[i]).state == UdpState::Open
                            &&& old(self).pcbs@[i].local.port == util::be16_at(data@, 2)
                            &&& (old(self).pcbs@[i].local.addr.0 == 0 || old(self).pcbs@[i].local.addr.0 == dst.0)
                            &&& forall|j: int|
                                0 <= j < i ==> !((#[trigger] old(self).pcbs@[j]).state
                                    == UdpState::Open && old(self).pcbs@[j].local.port
                                    == util::be16_at(data@, 2) && (old(self).pcbs@[j].local.addr.0
                                    == 0 || old(self).pcbs@[j].local.addr.0 == dst.0))
                            &&& final(self).pcbs@[i].recv_queue@.len() == old(self).pcbs@[i].recv_queue@.len() + 1
                            &&& final(self).pcbs@[i].recv_queue@.drop_last() == old(self).pcbs@[i].recv_queue@
                            &&& final(self).pcbs@[i].recv_queue@.last().foreign.addr == src
                            &&& final(self).pcbs@[i].recv_queue@.last().foreign.port
                                == util::be16_at(data@, 0)
                            &&& final(self).pcbs@[i].recv_queue@.last().data@ == data@.subrange(
                                UDP_HEADER_LEN as int,
                                util::be16_at(data@, 4),
                            )
                            &&& final(self).pcbs@[i].state == old(self).pcbs@[i].state
                            &&& final(self).pcbs@[i].local == old(self).pcbs@[i].local
                            &&& forall|j: int|
                                0 <= j < old(self).pcbs@.len() && j != i ==> final(self).pcbs@[j]
                                    == old(self).pcbs@[j]
                        }
                },
                Err(e) => {
                    &&& final(self).pcbs@ == old(self).pcbs@
                    &&& (e == NetError::PacketTooShort <==> data@.len() < UDP_HEADER_LEN)
                    &&& (e == NetError::InvalidLength <==> (data@.len() >= UDP_HEADER_LEN && !(
                    UDP_HEADER_LEN <= util::be16_at(data@, 4) <= data@.len())))
                    &&& (e == NetError::ChecksumError <==> (data@.len() >= UDP_HEADER_LEN
                        && UDP_HEADER_LEN <= util::be16_at(data@, 4) <= data@.len()
                        && !udp_checksum_ok(src, dst, data@.take(util::be16_at(data@, 4)))))
                    &&& (e == NetError::NoMatchingSocket <==> (data@.len() >= UDP_HEADER_LEN
                        && UDP_HEADER_LEN <= util::be16_at(data@, 4) <= data@.len()
                        && udp_checksum_ok(src, dst, data@.take(util::be16_at(data@, 4)))
                        && forall|i: int|
                        0 <= i < old(self).pcbs@.len() ==> !((#[trigger] old(self).pcbs@[i]).state
                            == UdpState::Open && old(self).pcbs@[i].local.port == util::be16_at(
                            data@,
                            2,
                        ) && (old(self).pcbs@[i].local.addr.0 == 0 || old(self).pcbs@[i].local.addr.0 == dst.0))))
                    &&& (e == NetError::PacketTooShort || e == NetError::InvalidLength || e
                        == NetError::ChecksumError || e == NetError::NoMatchingSocket)
                },
            },
    {
        if data.len() < UDP_HEADER_LEN {
            return Err(NetError::PacketTooShort);
        }
        let src_port = util::read_be16(data, 0);
        let dst_port = util::read_be16(data, 2);
        let length = util::read_be16(data, 4) as usize;
        if length < UDP_HEADER_LEN || length > data.len() {
            return Err(NetError::InvalidLength);
        }

        let truncated = vstd::slice::slice_subrange(data, 0, length);
        if !verify_udp_checksum(src, dst, truncated) {
            return Err(NetError::ChecksumError);
        }

        let n = self.pcbs.len();
        let mut i: usize = 0;
        while i < n
            invariant
                i <= n,
                n == self.pcbs@.len(),
                self.pcbs@ == old(self).pcbs@,
                length >= UDP_HEADER_LEN,
                length <= data@.len(),
                data@.len() >= UDP_HEADER_LEN,
                length == util::be16_at(data@, 4),
                dst_port == util::be16_at(data@, 2),
                src_port == util::be16_at(data@, 0),
                udp_checksum_ok(src, dst, data@.take(length as int)),
                forall|j: int|
                    0 <= j < i ==> !((#[trigger] self.pcbs@[j]).state == UdpState::Open
                        && self.pcbs@[j].local.port == util::be16_at(data@, 2) && (
                    self.pcbs@[j].local.addr.0 == 0 || self.pcbs@[j].local.addr.0 == dst.0)),
            decreases n - i,
        {
            let matches_port = matches!(self.pcbs[i].state, UdpState::Open)
                && self.pcbs[i].local.port == dst_port;
            let matches_addr = self.pcbs[i].local.addr.0 == 0 || self.pcbs[i].local.addr.0
                == dst.0;
            if matches_port && matches_addr {
                let payload = vstd::slice::slice_subrange(data, UDP_HEADER_LEN, length);
                let packet = UdpPacket {
                    foreign: UdpEndpoint { addr: src, port: src_port },
                    data: vstd::slice::slice_to_vec(payload),
                };
                let pcb = &mut self.pcbs[i];
                pcb.recv_queue.push_back(packet);
                proof {
                    assert(self.pcbs@[i as int].recv_queue@.last().data@ == data@.subrange(
                        UDP_HEADER_LEN as int,
                        length as int,
                    ));
                }
                return Ok(());
            }
            i = i + 1;
        }

        Err(NetError::NoMatchingSocket)
    }

    /// Pop the oldest queued datagram into `buf`; `WouldBlock` when the
    /// queue is empty.
    pub fn udp_recvfrom(&mut self, index: usize, buf: &mut Vec<u8>) -> (r: Result<
        (usize, UdpEndpoint),
        NetError,
    >)
        ensures
            final(self).pcbs@.len() == old(self).pcbs@.len(),
            match r {
                Ok((len, foreign)) => {
                    &&& index < old(self).pcbs@.len()
                    &&& old(self).pcbs@[index as int].state == UdpState::Open
                    &&& old(self).pcbs@[index as int].recv_queue@.len() > 0
                    &&& len == vstd::math::min(
                        old(self).pcbs@[index as int].recv_queue@[0].data@.len() as int,
                        old(buf)@.len() as int,
                    )
                    &&& final(buf)@.subrange(0, len as int) == old(
                        self,
                    ).pcbs@[index as int].recv_queue@[0].data@.take(len as int)
                    &&& foreign == old(self).pcbs@[index as int].recv_queue@[0].foreign
                    &&& final(self).pcbs@[index as int].recv_queue@ == old(
                        self,
                    ).pcbs@[index as int].recv_queue@.skip(1)
                },
                Err(e) => {
                    &&& (e == NetError::InvalidSocketIndex ==> index >= old(self).pcbs@.len())
                    &&& (e == NetError::InvalidSocketState ==> index < old(self).pcbs@.len()
                        && old(self).pcbs@[index as int].state == UdpState::Free)
                    &&& (e == NetError::WouldBlock ==> index < old(self).pcbs@.len() && old(
                        self,
                    ).pcbs@[index as int].recv_queue@.len() == 0)
                    &&& (e == NetError::InvalidSocketIndex || e == NetError::InvalidSocketState
                        || e == NetError::WouldBlock)
                },
            },
    {
        if index >= self.pcbs.len() {
            return Err(NetError::InvalidSocketIndex);
        }
        if matches!(self.pcbs[index].state, UdpState::Free) {
            return Err(NetError::InvalidSocketState);
        }

        let pcb = &mut self.pcbs[index];
        let packet = match pcb.recv_queue.pop_front() {
            Some(p) => p,
            None => {
                return Err(NetError::WouldBlock);
            },
        };

        let len = if packet.data.len() < buf.len() {
            packet.data.len()
        } else {
            buf.len()
        };
        let mut i: usize = 0;
        while i < len
            invariant
                i <= len,
                len <= packet.data@.len(),
                len <= buf@.len(),
                buf@.len() == old(buf)@.len(),
                forall|j: int| 0 <= j < i ==> buf@[j] == packet.data@[j],
            decreases len - i,
        {
            buf.set(i, packet.data[i]);
            i = i + 1;
        }
        proof {
            assert(buf@.subrange(0, len as int) =~= packet.data@.take(len as int));
        }
        Ok((len, packet.foreign))
    }
}

/// Build a whole datagram around `data`: the header with the computed
/// pseudo-header checksum — a zero sum is sent as all ones, per the
/// protocol — then the payload.
pub fn build_udp_datagram(src: IpAddr, src_port: u16, dst: IpAddr, dst_port: u16, data: &[u8]) -> (
    r: Result<Vec<u8>, NetError>)
    ensures
        match r {
            Ok(v) => {
                &&& data@.len() + UDP_HEADER_LEN <= 0xffff
                &&& v@.len() == UDP_HEADER_LEN + data@.len()
                &&& v@.subrange(UDP_HEADER_LEN as int, v@.len() as int) == data@
                &&& parse_udp_header(v@).src_port == src_port
                &&& parse_udp_header(v@).dst_port == dst_port
                &&& parse_udp_header(v@).length == v@.len()
                &&& parse_udp_header(v@).checksum != 0
                // the stored field makes the pseudo-header checksum
                // verify, with a zero sum sent as all ones (RFC 768)
                &&& udp_checksum_ok(src, dst, v@)
            },
            Err(e) => e == NetError::PacketTooLarge && data@.len() + UDP_HEADER_LEN > 0xffff,
        },
{
    if data.len() > 0xffff - UDP_HEADER_LEN {
        return Err(NetError::PacketTooLarge);
    }
    let total_len: u16 = (UDP_HEADER_LEN + data.len()) as u16;
    let mut packet: Vec<u8> = Vec::new();
    packet.push((src_port / 256) as u8);
    packet.push((src_port % 256) as u8);
    packet.push((dst_port / 256) as u8);
    packet.push((dst_port % 256) as u8);
    packet.push((total_len / 256) as u8);
    packet.push((total_len % 256) as u8);
    packet.push(0);
    packet.push(0);
    packet.extend_from_slice(data);

    let ghost zeroed = packet@;
    let csum = udp_checksum(src, dst, packet.as_slice());
    let field: u16 = if csum == 0 {
        0xffff
    } else {
        csum
    };
    util::write_be16(&mut packet, 6, field);
    proof {
        assert(util::be16_at(packet@, 0) == src_port);
        assert(util::be16_at(packet@, 2) == dst_port);
        assert(util::be16_at(packet@, 4) == total_len);
        assert(packet@.subrange(UDP_HEADER_LEN as int, packet@.len() as int) =~= data@);
        // inserting the field into the checksummed whole folds it in
        let whole_zeroed = crate::tcp::wire::pseudo_header_bytes(
            src,
            dst,
            UDP_PROTOCOL,
            zeroed.len() as u16,
        ) + zeroed;
        let whole = crate::tcp::wire::pseudo_header_bytes(
            src,
            dst,
            UDP_PROTOCOL,
            packet@.len() as u16,
        ) + packet@;
        util::lemma_ones_fold_bounds(whole_zeroed, 0, 0);
        util::lemma_ones_fold_insert(whole_zeroed, 18, field as int);
        assert(whole =~= whole_zeroed.update(18, (field as int / 256) as u8).update(
            19,
            (field as int % 256) as u8,
        ));
        assert(util::checksum_spec(whole) == 0);
    }
    Ok(packet)
}

} // verus!
