//! ICMP: the echo codec, the echo responder decision, the raw socket
//! fan-out, and the reply queue with id matching.

use vstd::prelude::*;

use crate::err::NetError;
use crate::ip::IpAddr;
use crate::socket::{SocketHandle, SocketSet};
use crate::util;
use std::collections::VecDeque;

verus! {

/// The size of the echo header.
pub const ICMP_HEADER_SIZE: usize = 8;

/// Slots in the raw ICMP socket table.
pub const ICMP_SOCKET_CAPACITY: usize = 16;

/// The message types the stack understands.
#[derive(Debug, Clone, Copy, PartialEq, Eq, Structural)]
pub enum IcmpType {
    EchoReply,
    DestinationUnreachable,
    EchoRequest,
    TimeExceeded,
}

impl IcmpType {
    /// The wire value of this type.
    pub open spec fn value_spec(self) -> u8 {
        match self {
            IcmpType::EchoReply => 0,
            IcmpType::DestinationUnreachable => 3,
            IcmpType::EchoRequest => 8,
            IcmpType::TimeExceeded => 11,
        }
    }

    pub fn value(&self) -> (r: u8)
        ensures
            r == self.value_spec(),
    {
        match self {
            IcmpType::EchoReply => 0,
            IcmpType::DestinationUnreachable => 3,
            IcmpType::EchoRequest => 8,
            IcmpType::TimeExceeded => 11,
        }
    }
}

/// The echo header as plain values.
#[derive(Debug, Clone, Copy, PartialEq, Eq, Structural)]
pub struct IcmpEcho {
    pub msg_type: u8,
    pub code: u8,
    pub checksum: u16,
    pub id: u16,
    pub seq: u16,
}

/// What kind of reply a reply record describes.
#[derive(Debug, Clone, Copy, PartialEq, Eq, Structural)]
pub enum IcmpReplyKind {
    Echo,
    Unreachable(u8),
}

/// A reply delivered to a waiting caller: who answered, the echo id and
/// sequence, the payload, and when it arrived.
pub struct IcmpReply {
    pub src: IpAddr,
    pub id: u16,
    pub seq: u16,
    pub payload: Vec<u8>,
    pub kind: IcmpReplyKind,
    pub timestamp: usize,
}

/// A datagram queued on a raw socket.
pub struct IcmpDatagram {
    pub src: IpAddr,
    pub data: Vec<u8>,
}

/// A raw ICMP socket: its receive queue.
pub struct IcmpSocket {
    pub recv_queue: VecDeque<IcmpDatagram>,
}

/// The echo header at the front of a buffer.
pub open spec fn parse_icmp_echo(s: Seq<u8>) -> IcmpEcho {
    IcmpEcho {
        msg_type: s[0],
        code: s[1],
        checksum: util::be16_at(s, 2) as u16,
        id: util::be16_at(s, 4) as u16,
        seq: util::be16_at(s, 6) as u16,
    }
}

/// The eight bytes of an echo header.
pub open spec fn icmp_echo_bytes(h: IcmpEcho) -> Seq<u8> {
    seq![h.msg_type, h.code] + util::be16_bytes(h.checksum) + util::be16_bytes(h.id)
        + util::be16_bytes(h.seq)
}

/// Parsing the serialised bytes of an echo header gives it back.
pub proof fn lemma_icmp_echo_roundtrip(h: IcmpEcho)
    ensures
        parse_icmp_echo(icmp_echo_bytes(h)) == h,
{
    util::lemma_be16_roundtrip(h.checksum);
    util::lemma_be16_roundtrip(h.id);
    util::lemma_be16_roundtrip(h.seq);
    let s = icmp_echo_bytes(h);
    assert(util::be16_at(s, 2) == util::be16_at(util::be16_bytes(h.checksum), 0));
    assert(util::be16_at(s, 4) == util::be16_at(util::be16_bytes(h.id), 0));
    assert(util::be16_at(s, 6) == util::be16_at(util::be16_bytes(h.seq), 0));
}

/// A whole echo message of the given type carrying `id`, `seq` and
/// `payload`, whose checksum verifies when the payload is even-sized.
pub open spec fn echo_message_ok(rp: Seq<u8>, msg_type: u8, id: u16, seq: u16, payload: Seq<u8>) -> bool {
    &&& rp.len() == ICMP_HEADER_SIZE + payload.len()
    &&& rp[0] == msg_type
    &&& rp[1] == 0
    &&& util::be16_at(rp, 4) == id
    &&& util::be16_at(rp, 6) == seq
    &&& rp.skip(ICMP_HEADER_SIZE as int) == payload
    &&& (payload.len() % 2 == 0 ==> util::checksum_spec(rp) == 0)
}

/// Build a whole echo message with its checksum filled: the checksum of
/// the result is zero, so it verifies on arrival.
pub fn build_icmp_echo(msg_type: u8, id: u16, seq: u16, payload: &[u8]) -> (r: Vec<u8>)
    ensures
        r@.len() == ICMP_HEADER_SIZE + payload@.len(),
        r@.subrange(ICMP_HEADER_SIZE as int, r@.len() as int) == payload@,
        r@[0] == msg_type,
        r@[1] == 0,
        util::be16_at(r@, 4) == id,
        util::be16_at(r@, 6) == seq,
        payload@.len() % 2 == 0 ==> util::checksum_spec(r@) == 0,
        echo_message_ok(r@, msg_type, id, seq, payload@),
{
    let mut packet: Vec<u8> = Vec::new();
    packet.push(msg_type);
    packet.push(0);
    packet.push(0);
    packet.push(0);
    packet.push((id / 256) as u8);
    packet.push((id % 256) as u8);
    packet.push((seq / 256) as u8);
    packet.push((seq % 256) as u8);
    packet.extend_from_slice(payload);
    let ghost zeroed = packet@;
    proof {
        util::lemma_ones_fold_bounds(zeroed, 0, 0);
    }
    let c = util::checksum(packet.as_slice());
    util::write_be16(&mut packet, 2, c);
    proof {
        if payload@.len() % 2 == 0 {
            util::lemma_checksum_insert(zeroed, 2);
            assert(packet@ =~= zeroed.update(2, (c / 256) as u8).update(3, (c % 256) as u8));
        }
        assert(packet@.subrange(ICMP_HEADER_SIZE as int, packet@.len() as int) =~= payload@);
        assert(packet@.skip(ICMP_HEADER_SIZE as int) =~= payload@);
    }
    packet
}

/// What arrival of an ICMP datagram asks the stack to do next.
pub enum IcmpAction {
    /// Answer an echo request: send this already-encoded reply.
    SendEchoReply { dst: IpAddr, packet: Vec<u8> },
    /// Nothing to transmit.
    NoReply,
}

/// The ICMP engine: the raw socket table and the reply queue.
pub struct Icmp {
    pub sockets: SocketSet<IcmpSocket>,
    pub reply_queue: VecDeque<IcmpReply>,
}

impl Icmp {
    /// A fresh engine with every slot free and nothing queued.
    pub fn new() -> (r: Self)
        ensures
            r.sockets@.len() == ICMP_SOCKET_CAPACITY,
            forall|i: int| 0 <= i < r.sockets@.len() ==> r.sockets@[i] is None,
            r.reply_queue@.len() == 0,
    {
        Icmp { sockets: SocketSet::new(ICMP_SOCKET_CAPACITY), reply_queue: VecDeque::new() }
    }

    /// Claim a raw socket slot.
    pub fn socket_alloc(&mut self) -> (r: Result<usize, NetError>)
        ensures
            final(self).sockets@.len() == old(self).sockets@.len(),
            match r {
                Ok(i) => {
                    &&& i < old(self).sockets@.len()
                    &&& old(self).sockets@[i as int] is None
                    &&& final(self).sockets@[i as int] is Some
                    &&& final(self).sockets@[i as int]->0.recv_queue@.len() == 0
                    &&& forall|j: int|
                        0 <= j < old(self).sockets@.len() && j != i ==> final(self).sockets@[j]
                            == old(self).sockets@[j]
                },
                Err(e) => e == NetError::NoSocketAvailable && final(self).sockets@ == old(self).sockets@ && forall|j: int|
                    0 <= j < old(self).sockets@.len() ==> (#[trigger] old(self).sockets@[j]) is Some,
            },
    {
        let socket = IcmpSocket { recv_queue: VecDeque::new() };
        let handle = self.sockets.allocate(socket)?;
        Ok(handle.index())
    }

    /// Release a raw socket slot; a second free of the same handle is
    /// `InvalidSocketIndex`.
    pub fn socket_free(&mut self, index: usize) -> (r: Result<(), NetError>)
        ensures
            final(self).sockets@.len() == old(self).sockets@.len(),
            match r {
                Ok(()) => {
                    &&& index < old(self).sockets@.len()
                    &&& old(self).sockets@[index as int] is Some
                    &&& final(self).sockets@ == old(self).sockets@.update(
                        index as int,
                        None::<IcmpSocket>,
                    )
                },
                Err(e) => {
                    &&& e == NetError::InvalidSocketIndex
                    &&& (index >= old(self).sockets@.len() || old(self).sockets@[index as int] is None)
                    &&& final(self).sockets@ == old(self).sockets@
                },
            },
    {
        self.sockets.free(SocketHandle::new(index))
    }

    /// Pop the oldest datagram of a raw socket; `WouldBlock` when none.
    pub fn socket_recvfrom(&mut self, index: usize, buf: &mut Vec<u8>) -> (r: Result<
        (usize, IpAddr),
        NetError,
    >)
        ensures
            final(self).sockets@.len() == old(self).sockets@.len(),
            match r {
                Ok((len, src)) => {
                    &&& index < old(self).sockets@.len()
                    &&& old(self).sockets@[index as int] is Some
                    &&& old(self).sockets@[index as int]->0.recv_queue@.len() > 0
                    &&& len == vstd::math::min(
                        old(self).sockets@[index as int]->0.recv_queue@[0].data@.len() as int,
                        old(buf)@.len() as int,
                    )
                    &&& final(buf)@.subrange(0, len as int) == old(self).sockets@[index as int]->0.recv_queue@[0].data@.take(len as int)
                    &&& src == old(self).sockets@[index as int]->0.recv_queue@[0].src
                    &&& final(self).sockets@[index as int] is Some
                    &&& final(self).sockets@[index as int]->0.recv_queue@ == old(self).sockets@[index as int]->0.recv_queue@.skip(1)
                },
                Err(e) => {
                    &&& (e == NetError::WouldBlock <==> index < old(self).sockets@.len() && old(self).sockets@[index as int] is Some && old(self).sockets@[index as int]->0.recv_queue@.len() == 0)
                    &&& (e == NetError::InvalidSocketIndex <==> index >= old(self).sockets@.len())
                    &&& (e == NetError::InvalidSocketState <==> index < old(self).sockets@.len()
                        && old(self).sockets@[index as int] is None)
                    &&& (e == NetError::InvalidSocketIndex || e == NetError::InvalidSocketState
                        || e == NetError::WouldBlock)
                },
            },
    {
        let socket = self.sockets.get_mut(SocketHandle::new(index))?;
        let packet = match socket.recv_queue.pop_front() {
            Some(p) => p,
            None => {
                return Err(NetError::WouldBlock);
            },
        };
        let len = if packet.data.len() < buf.len() {
            packet.data.len()
        } else {
            buf.len()
        };
        let mut i: usize = 0;
        while i < len
            invariant
                i <= len,
                len <= packet.data@.len(),
                len <= buf@.len(),
                buf@.len() == old(buf)@.len(),
                forall|j: int| 0 <= j < i ==> buf@[j] == packet.data@[j],
            decreases len - i,
        {
            buf.set(i, packet.data[i]);
            i = i + 1;
        }
        proof {
            assert(buf@.subrange(0, len as int) =~= packet.data@.take(len as int));
        }
        Ok((len, packet.src))
    }

    /// Hand a copy of an arriving datagram to every open raw socket.
    pub fn fan_out(&mut self, src: IpAddr, data: &[u8])
        ensures
            final(self).sockets@.len() == old(self).sockets@.len(),
            final(self).reply_queue@ == old(self).reply_queue@,
            forall|i: int|
                0 <= i < old(self).sockets@.len() && old(self).sockets@[i] is Some ==> ((
                #[trigger] final(self).sockets@[i]) is Some
                    && final(self).sockets@[i]->0.recv_queue@.len() == old(self).sockets@[i]->0.recv_queue@.len() + 1
                    && final(self).sockets@[i]->0.recv_queue@.drop_last() == old(self).sockets@[i]->0.recv_queue@
                    && final(self).sockets@[i]->0.recv_queue@.last().src == src
                    && final(self).sockets@[i]->0.recv_queue@.last().data@ == data@),
            forall|i: int|
                0 <= i < old(self).sockets@.len() && old(self).sockets@[i] is None ==> (
                #[trigger] final(self).sockets@[i]) is None,
    {
        let n = self.sockets.capacity();
        let mut i: usize = 0;
        while i < n
            invariant
                i <= n,
                n == self.sockets@.len(),
                self.sockets@.len() == old(self).sockets@.len(),
                self.reply_queue@ == old(self).reply_queue@,
                forall|j: int| i <= j < n ==> self.sockets@[j] == old(self).sockets@[j],
                forall|j: int|
                    0 <= j < i && old(self).sockets@[j] is Some ==> ((
                    #[trigger] self.sockets@[j]) is Some
                        && self.sockets@[j]->0.recv_queue@.len() == old(self).sockets@[j]->0.recv_queue@.len() + 1
                        && self.sockets@[j]->0.recv_queue@.drop_last() == old(self).sockets@[j]->0.recv_queue@
                        && self.sockets@[j]->0.recv_queue@.last().src == src
                        && self.sockets@[j]->0.recv_queue@.last().data@ == data@),
                forall|j: int|
                    0 <= j < i && old(self).sockets@[j] is None ==> (
                    #[trigger] self.sockets@[j]) is None,
            decreases n - i,
        {
            match self.sockets.get_mut(SocketHandle::new(i)) {
                Ok(socket) => {
                    socket.recv_queue.push_back(
                        IcmpDatagram { src, data: vstd::slice::slice_to_vec(data) },
                    );
                },
                Err(_) => {},
            }
            i = i + 1;
        }
    }

    /// Record a reply for `icmp_recv_reply` callers and remember when it
    /// came.
    pub fn icmp_notify_reply(
        &mut self,
        src: IpAddr,
        id: u16,
        seq: u16,
        payload: &[u8],
        kind: IcmpReplyKind,
        now_ticks: usize,
    ) -> (r: Result<(), NetError>)
        ensures
            r is Ok,
            final(self).sockets@ == old(self).sockets@,
            final(self).reply_queue@.len() == old(self).reply_queue@.len() + 1,
            final(self).reply_queue@.drop_last() == old(self).reply_queue@,
            final(self).reply_queue@.last().src == src,
            final(self).reply_queue@.last().id == id,
            final(self).reply_queue@.last().seq == seq,
            final(self).reply_queue@.last().payload@ == payload@,
            final(self).reply_queue@.last().kind == kind,
            final(self).reply_queue@.last().timestamp == now_ticks,
    {
        self.reply_queue.push_back(
            IcmpReply {
                src,
                id,
                seq,
                payload: vstd::slice::slice_to_vec(payload),
                kind,
                timestamp: now_ticks,
            },
        );
        Ok(())
    }

    /// Take the oldest queued reply carrying `id`.  With none queued the
    /// caller's budget has no way to elapse inside a single call, so the
    /// wait ends in `Timeout`; the caller feeds received datagrams in and
    /// asks again while its budget lasts.
    pub fn icmp_recv_reply(&mut self, id: u16, timeout_ms: u64) -> (r: Result<
        IcmpReply,
        NetError,
    >)
        ensures
            final(self).sockets@ == old(self).sockets@,
            match r {
                Ok(reply) => exists|i: int|
                    {
                        &&& 0 <= i < old(self).reply_queue@.len()
                        &&& (#[trigger] old(self).reply_queue@[i]).id == id
                        &&& forall|j: int|
                            0 <= j < i ==> (#[trigger] old(self).reply_queue@[j]).id != id
                        &&& reply.src == old(self).reply_queue@[i].src
                        &&& reply.id == id
                        &&& reply.seq == old(self).reply_queue@[i].seq
                        &&& reply.payload@ == old(self).reply_queue@[i].payload@
                        &&& reply.kind == old(self).reply_queue@[i].kind
                        &&& final(self).reply_queue@ == old(self).reply_queue@.remove(i)
                    },
                Err(e) => {
                    &&& e == NetError::Timeout
                    &&& forall|i: int|
                        0 <= i < old(self).reply_queue@.len() ==> (#[trigger] old(self).reply_queue@[i]).id != id
                    &&& final(self).reply_queue@ == old(self).reply_queue@
                },
            },
    {
        let n = self.reply_queue.len();
        let mut i: usize = 0;
        while i < n
            invariant
                i <= n,
                n == self.reply_queue@.len(),
                self.reply_queue@ == old(self).reply_queue@,
                self.sockets@ == old(self).sockets@,
                forall|j: int| 0 <= j < i ==> (#[trigger] self.reply_queue@[j]).id != id,
            decreases n - i,
        {
            if self.reply_queue[i].id == id {
                match self.reply_queue.remove(i) {
                    Some(reply) => {
                        return Ok(reply);
                    },
                    None => {
                        return Err(NetError::Timeout);
                    },
                }
            }
            i = i + 1;
        }
        let _ = timeout_ms;
        Err(NetError::Timeout)
    }
}

} // verus!
