//! Ethernet II framing: addresses, header codec, and frame building.

use vstd::prelude::*;

use crate::err::NetError;
use crate::util;

verus! {

pub const ETHERTYPE_ARP: u16 = 0x0806;

pub const ETHERTYPE_IPV4: u16 = 0x0800;

/// The length of an Ethernet II header.
pub const ETH_HEADER_LEN: usize = 14;

/// A six-byte hardware address.
#[derive(Debug, Clone, Copy, PartialEq, Eq)]
pub struct MacAddr(pub [u8; 6]);

impl MacAddr {
    /// The all-ones broadcast address.
    pub fn broadcast() -> (r: Self)
        ensures
            r.0@ == seq![0xffu8, 0xffu8, 0xffu8, 0xffu8, 0xffu8, 0xffu8],
    {
        let r = MacAddr([0xff, 0xff, 0xff, 0xff, 0xff, 0xff]);
        proof {
            assert(r.0@ =~= seq![0xffu8, 0xffu8, 0xffu8, 0xffu8, 0xffu8, 0xffu8]);
        }
        r
    }

    /// The all-zero address.
    pub fn zero() -> (r: Self)
        ensures
            r.0@ == seq![0u8, 0u8, 0u8, 0u8, 0u8, 0u8],
    {
        let r = MacAddr([0, 0, 0, 0, 0, 0]);
        proof {
            assert(r.0@ =~= seq![0u8, 0u8, 0u8, 0u8, 0u8, 0u8]);
        }
        r
    }
}

/// An Ethernet II header as plain values.
#[derive(Debug, Clone, Copy, PartialEq, Eq)]
pub struct EthHeader {
    pub dst: [u8; 6],
    pub src: [u8; 6],
    pub ethertype: u16,
}

/// The fourteen header bytes of a frame: destination, source, ethertype
/// big-endian.
pub open spec fn eth_header_bytes(h: EthHeader) -> Seq<u8> {
    h.dst@ + h.src@ + util::be16_bytes(h.ethertype)
}

/// The header at the front of a frame buffer.
pub open spec fn parse_eth_header_spec(s: Seq<u8>) -> EthHeader {
    EthHeader {
        dst: [s[0], s[1], s[2], s[3], s[4], s[5]],
        src: [s[6], s[7], s[8], s[9], s[10], s[11]],
        ethertype: util::be16_at(s, 12) as u16,
    }
}

/// Parsing the serialised bytes of a header gives the header back.
pub proof fn lemma_eth_header_roundtrip(h: EthHeader)
    ensures
        parse_eth_header_spec(eth_header_bytes(h)) == h,
{
    util::lemma_be16_roundtrip(h.ethertype);
    let s = eth_header_bytes(h);
    assert(util::be16_at(s, 12) == util::be16_at(util::be16_bytes(h.ethertype), 0));
    let p = parse_eth_header_spec(s);
    assert(p.dst =~= h.dst);
    assert(p.src =~= h.src);
}

/// Read and validate the header of an ingress frame.
pub fn parse_eth_header(data: &[u8]) -> (r: Result<EthHeader, NetError>)
    ensures
        match r {
            Ok(h) => data@.len() >= ETH_HEADER_LEN && h == parse_eth_header_spec(data@),
            Err(e) => e == NetError::PacketTooShort && data@.len() < ETH_HEADER_LEN,
        },
{
    if data.len() < ETH_HEADER_LEN {
        return Err(NetError::PacketTooShort);
    }
    let h = EthHeader {
        dst: [data[0], data[1], data[2], data[3], data[4], data[5]],
        src: [data[6], data[7], data[8], data[9], data[10], data[11]],
        ethertype: util::read_be16(data, 12),
    };
    proof {
        assert(h.dst@ =~= parse_eth_header_spec(data@).dst@);
        assert(h.src@ =~= parse_eth_header_spec(data@).src@);
    }
    Ok(h)
}

/// Build a frame: the header, then the payload.
pub fn build_eth_frame(dst: MacAddr, src: MacAddr, ethertype: u16, payload: &[u8]) -> (r: Vec<u8>)
    ensures
        r@ == eth_header_bytes(EthHeader { dst: dst.0, src: src.0, ethertype }) + payload@,
        r@.len() == ETH_HEADER_LEN + payload@.len(),
{
    let mut frame: Vec<u8> = Vec::new();
    let mut i: usize = 0;
    while i < 6
        invariant
            i <= 6,
            frame@.len() == i,
            forall|j: int| 0 <= j < i ==> frame@[j] == dst.0@[j],
        decreases 6 - i,
    {
        frame.push(dst.0[i]);
        i = i + 1;
    }
    let mut k: usize = 0;
    while k < 6
        invariant
            k <= 6,
            frame@.len() == 6 + k,
            forall|j: int| 0 <= j < 6 ==> frame@[j] == dst.0@[j],
            forall|j: int| 0 <= j < k ==> frame@[6 + j] == src.0@[j],
        decreases 6 - k,
    {
        frame.push(src.0[k]);
        k = k + 1;
    }
    frame.push((ethertype / 256) as u8);
    frame.push((ethertype % 256) as u8);
    let ghost header = frame@;
    frame.extend_from_slice(payload);
    proof {
        assert(header =~= eth_header_bytes(
            EthHeader { dst: dst.0, src: src.0, ethertype },
        ));
        assert(frame@ =~= header + payload@);
    }
    frame
}

} // verus!
