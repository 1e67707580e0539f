//! ARP: packet codec, request/reply builders, and the resolver cache.

use vstd::prelude::*;

use crate::err::NetError;
use crate::ether::MacAddr;
use crate::ip::IpAddr;
use crate::util;

verus! {

pub const ARP_HTYPE_ETHERNET: u16 = 1;

pub const ARP_PTYPE_IPV4: u16 = 0x0800;

pub const ARP_HLEN_ETH: u8 = 6;

pub const ARP_PLEN_IPV4: u8 = 4;

pub const ARP_OP_REQUEST: u16 = 1;

pub const ARP_OP_REPLY: u16 = 2;

/// The length of an ARP packet for Ethernet and IPv4.
pub const ARP_PACKET_LEN: usize = 28;

/// A checked read view of an ARP packet over a borrowed buffer.
pub struct Packet<'a> {
    pub buffer: &'a [u8],
}

impl<'a> Packet<'a> {
    /// The bytes under the view.
    pub open spec fn view(self) -> Seq<u8> {
        self.buffer@
    }

    /// Check the buffer length before handing out a view.
    pub fn new_checked(buffer: &'a [u8]) -> (r: Result<Self, NetError>)
        ensures
            match r {
                Ok(p) => p@ == buffer@ && buffer@.len() >= ARP_PACKET_LEN,
                Err(e) => e == NetError::PacketTooShort && buffer@.len() < ARP_PACKET_LEN,
            },
    {
        if buffer.len() < ARP_PACKET_LEN {
            return Err(NetError::PacketTooShort);
        }
        Ok(Self { buffer })
    }

    pub fn htype(&self) -> (r: u16)
        requires
            self@.len() >= ARP_PACKET_LEN,
        ensures
            r == util::be16_at(self@, 0),
    {
        util::read_be16(self.buffer, 0)
    }

    pub fn ptype(&self) -> (r: u16)
        requires
            self@.len() >= ARP_PACKET_LEN,
        ensures
            r == util::be16_at(self@, 2),
    {
        util::read_be16(self.buffer, 2)
    }

    pub fn hlen(&self) -> (r: u8)
        requires
            self@.len() >= ARP_PACKET_LEN,
        ensures
            r == self@[4],
    {
        self.buffer[4]
    }

    pub fn plen(&self) -> (r: u8)
        requires
            self@.len() >= ARP_PACKET_LEN,
        ensures
            r == self@[5],
    {
        self.buffer[5]
    }

    pub fn oper(&self) -> (r: u16)
        requires
            self@.len() >= ARP_PACKET_LEN,
        ensures
            r == util::be16_at(self@, 6),
    {
        util::read_be16(self.buffer, 6)
    }

    /// The sender hardware address.
    pub fn sha(&self) -> (r: [u8; 6])
        requires
            self@.len() >= ARP_PACKET_LEN,
        ensures
            r@ == self@.subrange(8, 14),
    {
        let b = self.buffer;
        let r = [b[8], b[9], b[10], b[11], b[12], b[13]];
        proof {
            assert(r@ =~= self@.subrange(8, 14));
        }
        r
    }

    /// The sender protocol address.
    pub fn spa(&self) -> (r: u32)
        requires
            self@.len() >= ARP_PACKET_LEN,
        ensures
            r == util::be32_at(self@, 14),
    {
        util::read_be32(self.buffer, 14)
    }

    /// The target hardware address.
    pub fn tha(&self) -> (r: [u8; 6])
        requires
            self@.len() >= ARP_PACKET_LEN,
        ensures
            r@ == self@.subrange(18, 24),
    {
        let b = self.buffer;
        let r = [b[18], b[19], b[20], b[21], b[22], b[23]];
        proof {
            assert(r@ =~= self@.subrange(18, 24));
        }
        r
    }

    /// The target protocol address.
    pub fn tpa(&self) -> (r: u32)
        requires
            self@.len() >= ARP_PACKET_LEN,
        ensures
            r == util::be32_at(self@, 24),
    {
        util::read_be32(self.buffer, 24)
    }
}

/// A write view of an ARP packet over an owned buffer.
pub struct PacketMut {
    pub buffer: Vec<u8>,
}

impl View for PacketMut {
    type V = Seq<u8>;

    open spec fn view(&self) -> Seq<u8> {
        self.buffer@
    }
}

impl PacketMut {
    pub fn new_unchecked(buffer: Vec<u8>) -> (r: Self)
        ensures
            r@ == buffer@,
    {
        Self { buffer }
    }

    /// Hand the underlying buffer back.
    pub fn into_bytes(self) -> (r: Vec<u8>)
        ensures
            r@ == self@,
    {
        self.buffer
    }

    pub fn set_htype(&mut self, value: u16)
        requires
            old(self)@.len() >= ARP_PACKET_LEN,
        ensures
            final(self)@.len() == old(self)@.len(),
            util::be16_at(final(self)@, 0) == value,
            final(self)@ == old(self)@.update(0, (value / 256) as u8).update(
                1,
                (value % 256) as u8,
            ),
    {
        util::write_be16(&mut self.buffer, 0, value);
    }

    pub fn set_ptype(&mut self, value: u16)
        requires
            old(self)@.len() >= ARP_PACKET_LEN,
        ensures
            final(self)@.len() == old(self)@.len(),
            util::be16_at(final(self)@, 2) == value,
            final(self)@ == old(self)@.update(2, (value / 256) as u8).update(
                3,
                (value % 256) as u8,
            ),
    {
        util::write_be16(&mut self.buffer, 2, value);
    }

    pub fn set_hlen(&mut self, value: u8)
        requires
            old(self)@.len() >= ARP_PACKET_LEN,
        ensures
            final(self)@ == old(self)@.update(4, value),
    {
        self.buffer.set(4, value);
    }

    pub fn set_plen(&mut self, value: u8)
        requires
            old(self)@.len() >= ARP_PACKET_LEN,
        ensures
            final(self)@ == old(self)@.update(5, value),
    {
        self.buffer.set(5, value);
    }

    pub fn set_oper(&mut self, value: u16)
        requires
            old(self)@.len() >= ARP_PACKET_LEN,
        ensures
            final(self)@.len() == old(self)@.len(),
            util::be16_at(final(self)@, 6) == value,
            final(self)@ == old(self)@.update(6, (value / 256) as u8).update(
                7,
                (value % 256) as u8,
            ),
    {
        util::write_be16(&mut self.buffer, 6, value);
    }

    pub fn set_sha(&mut self, value: [u8; 6])
        requires
            old(self)@.len() >= ARP_PACKET_LEN,
        ensures
            final(self)@.len() == old(self)@.len(),
            final(self)@.subrange(8, 14) == value@,
            forall|j: int| 0 <= j < old(self)@.len() && !(8 <= j < 14) ==> final(self)@[j] == old(self)@[j],
    {
        let mut i: usize = 0;
        while i < 6
            invariant
                i <= 6,
                self.buffer@.len() == old(self)@.len(),
                old(self)@.len() >= ARP_PACKET_LEN,
                forall|j: int| 0 <= j < i ==> self.buffer@[8 + j] == value@[j],
                forall|j: int|
                    0 <= j < old(self)@.len() && !(8 <= j < 8 + i) ==> self.buffer@[j] == old(
                        self,
                    )@[j],
            decreases 6 - i,
        {
            self.buffer.set(8 + i, value[i]);
            i = i + 1;
        }
        proof {
            assert(self.buffer@.subrange(8, 14) =~= value@);
        }
    }

    pub fn set_spa(&mut self, value: u32)
        requires
            old(self)@.len() >= ARP_PACKET_LEN,
        ensures
            final(self)@.len() == old(self)@.len(),
            util::be32_at(final(self)@, 14) == value,
            forall|j: int|
                0 <= j < old(self)@.len() && !(14 <= j < 18) ==> final(self)@[j] == old(self)@[j],
    {
        util::write_be32(&mut self.buffer, 14, value);
    }

    pub fn set_tha(&mut self, value: [u8; 6])
        requires
            old(self)@.len() >= ARP_PACKET_LEN,
        ensures
            final(self)@.len() == old(self)@.len(),
            final(self)@.subrange(18, 24) == value@,
            forall|j: int|
                0 <= j < old(self)@.len() && !(18 <= j < 24) ==> final(self)@[j] == old(self)@[j],
    {
        let mut i: usize = 0;
        while i < 6
            invariant
                i <= 6,
                self.buffer@.len() == old(self)@.len(),
                old(self)@.len() >= ARP_PACKET_LEN,
                forall|j: int| 0 <= j < i ==> self.buffer@[18 + j] == value@[j],
                forall|j: int|
                    0 <= j < old(self)@.len() && !(18 <= j < 18 + i) ==> self.buffer@[j] == old(
                        self,
                    )@[j],
            decreases 6 - i,
        {
            self.buffer.set(18 + i, value[i]);
            i = i + 1;
        }
        proof {
            assert(self.buffer@.subrange(18, 24) =~= value@);
        }
    }

    pub fn set_tpa(&mut self, value: u32)
        requires
            old(self)@.len() >= ARP_PACKET_LEN,
        ensures
            final(self)@.len() == old(self)@.len(),
            util::be32_at(final(self)@, 24) == value,
            forall|j: int|
                0 <= j < old(self)@.len() && !(24 <= j < 28) ==> final(self)@[j] == old(self)@[j],
    {
        util::write_be32(&mut self.buffer, 24, value);
    }
}

/// A well-formed Ethernet-and-IPv4 ARP packet with the given operation
/// and addresses.
pub open spec fn arp_packet_ok(
    s: Seq<u8>,
    oper: u16,
    sha: Seq<u8>,
    spa: u32,
    tha: Seq<u8>,
    tpa: u32,
) -> bool {
    &&& s.len() == ARP_PACKET_LEN
    &&& util::be16_at(s, 0) == ARP_HTYPE_ETHERNET
    &&& util::be16_at(s, 2) == ARP_PTYPE_IPV4
    &&& s[4] == ARP_HLEN_ETH
    &&& s[5] == ARP_PLEN_IPV4
    &&& util::be16_at(s, 6) == oper
    &&& s.subrange(8, 14) == sha
    &&& util::be32_at(s, 14) == spa
    &&& s.subrange(18, 24) == tha
    &&& util::be32_at(s, 24) == tpa
}

/// Build an ARP packet with the given operation and addresses.
pub fn build_arp_packet(oper: u16, sha: MacAddr, spa: IpAddr, tha: MacAddr, tpa: IpAddr) -> (r:
    Vec<u8>)
    ensures
        arp_packet_ok(r@, oper, sha.0@, spa.0, tha.0@, tpa.0),
{
    let mut buf: Vec<u8> = Vec::new();
    let mut i: usize = 0;
    while i < ARP_PACKET_LEN
        invariant
            i <= ARP_PACKET_LEN,
            buf@.len() == i,
        decreases ARP_PACKET_LEN - i,
    {
        buf.push(0);
        i = i + 1;
    }
    let mut pkt = PacketMut::new_unchecked(buf);
    pkt.set_htype(ARP_HTYPE_ETHERNET);
    pkt.set_ptype(ARP_PTYPE_IPV4);
    pkt.set_hlen(ARP_HLEN_ETH);
    pkt.set_plen(ARP_PLEN_IPV4);
    pkt.set_oper(oper);
    pkt.set_sha(sha.0);
    pkt.set_spa(spa.0);
    pkt.set_tha(tha.0);
    pkt.set_tpa(tpa.0);
    proof {
        assert(pkt@.subrange(8, 14) =~= sha.0@);
        assert(pkt@.subrange(18, 24) =~= tha.0@);
    }
    pkt.into_bytes()
}

/// An ingress buffer with the Ethernet-and-IPv4 ARP shape this stack
/// accepts.
pub open spec fn arp_shape_ok(s: Seq<u8>) -> bool {
    &&& s.len() >= ARP_PACKET_LEN
    &&& util::be16_at(s, 0) == ARP_HTYPE_ETHERNET
    &&& util::be16_at(s, 2) == ARP_PTYPE_IPV4
    &&& s[4] == ARP_HLEN_ETH
    &&& s[5] == ARP_PLEN_IPV4
}

/// One cache line: a protocol address, its hardware address, and whether
/// the line currently holds a resolution.
#[derive(Debug, Clone, Copy, PartialEq, Eq)]
pub struct ArpEntry {
    pub ip: IpAddr,
    pub mac: MacAddr,
    pub valid: bool,
}

/// The resolver cache: unbounded, linear search, last write wins.
pub struct ArpCache {
    pub entries: Vec<ArpEntry>,
}

impl ArpCache {
    /// An empty cache.
    pub fn new() -> (r: Self)
        ensures
            r.entries@.len() == 0,
    {
        ArpCache { entries: Vec::new() }
    }

    /// The hardware address cached for `ip`, if a valid line holds one.
    pub fn lookup(&self, ip: IpAddr) -> (r: Option<MacAddr>)
        ensures
            match r {
                Some(mac) => exists|i: int|
                    {
                        &&& 0 <= i < self.entries@.len()
                        &&& (#[trigger] self.entries@[i]).valid
                        &&& self.entries@[i].ip.0 == ip.0
                        &&& self.entries@[i].mac == mac
                        &&& forall|j: int|
                            0 <= j < i ==> !((#[trigger] self.entries@[j]).valid
                                && self.entries@[j].ip.0 == ip.0)
                    },
                None => forall|i: int|
                    0 <= i < self.entries@.len() ==> !((#[trigger] self.entries@[i]).valid
                        && self.entries@[i].ip.0 == ip.0),
            },
    {
        let n = self.entries.len();
        let mut i: usize = 0;
        while i < n
            invariant
                i <= n,
                n == self.entries@.len(),
                forall|j: int|
                    0 <= j < i ==> !((#[trigger] self.entries@[j]).valid && self.entries@[j].ip.0
                        == ip.0),
            decreases n - i,
        {
            if self.entries[i].valid && self.entries[i].ip.0 == ip.0 {
                return Some(self.entries[i].mac);
            }
            i = i + 1;
        }
        None
    }

    /// Upsert a resolution: overwrite the line for `ip` if one exists,
    /// else append a fresh line.  Afterwards the cache resolves `ip` to
    /// `mac`.
    pub fn insert(&mut self, ip: IpAddr, mac: MacAddr)
        ensures
            exists|i: int|
                0 <= i < final(self).entries@.len() && (#[trigger] final(self).entries@[i]).valid
                    && final(self).entries@[i].ip.0 == ip.0 && final(self).entries@[i].mac == mac,
            final(self).entries@.len() >= old(self).entries@.len(),
            forall|j: int|
                0 <= j < old(self).entries@.len() && (#[trigger] old(self).entries@[j]).ip.0
                    != ip.0 ==> final(self).entries@[j] == old(self).entries@[j],
    {
        let n = self.entries.len();
        let mut i: usize = 0;
        while i < n
            invariant
                i <= n,
                n == self.entries@.len(),
                self.entries@ == old(self).entries@,
                forall|j: int| 0 <= j < i ==> (#[trigger] self.entries@[j]).ip.0 != ip.0,
            decreases n - i,
        {
            if self.entries[i].ip.0 == ip.0 {
                let e = &mut self.entries[i];
                e.mac = mac;
                e.valid = true;
                proof {
                    assert(self.entries@[i as int].valid && self.entries@[i as int].ip.0 == ip.0
                        && self.entries@[i as int].mac == mac);
                }
                return ;
            }
            i = i + 1;
        }
        self.entries.push(ArpEntry { ip, mac, valid: true });
        proof {
            let k = self.entries@.len() - 1;
            assert(self.entries@[k].valid && self.entries@[k].ip.0 == ip.0 && self.entries@[k].mac
                == mac);
        }
    }
}

} // verus!
