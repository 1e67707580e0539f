//! DNS wire codec: the query header, domain-name encoding with the
//! compression-pointer decoder, query building, and the answer scan for
//! an A record.
//!
//! The resolver loop around these — socket setup, send, timed wait —
//! belongs to the embedder; everything here is pure byte logic.

use vstd::prelude::*;
use vstd::string::StringSliceAdditionalSpecFns;

use crate::err::NetError;
use crate::ip::IpAddr;
use crate::util;

verus! {

/// The type number of an IPv4 address record.
pub const DNS_TYPE_A: u16 = 1;

/// The class number of the Internet.
pub const DNS_CLASS_IN: u16 = 1;

/// The fixed header length.
pub const DNS_HEADER_LEN: usize = 12;

/// How many label or pointer steps the decoder follows before giving up.
pub const DNS_MAX_STEPS: usize = 127;

/// The six 16-bit fields of a message header, in host order.
#[derive(Debug, Clone, Copy, PartialEq, Eq, Structural)]
pub struct DnsHeader {
    pub id: u16,
    pub flags: u16,
    pub qdcount: u16,
    pub ancount: u16,
    pub nscount: u16,
    pub arcount: u16,
}

impl DnsHeader {
    /// The header of a fresh recursive query with one question.
    pub fn new_query(id: u16) -> (r: Self)
        ensures
            r == (DnsHeader {
                id,
                flags: 0x0100u16,
                qdcount: 1u16,
                ancount: 0u16,
                nscount: 0u16,
                arcount: 0u16,
            }),
    {
        DnsHeader { id, flags: 0x0100, qdcount: 1, ancount: 0, nscount: 0, arcount: 0 }
    }
}

/// The twelve header bytes, fields big-endian.
pub open spec fn dns_header_bytes(h: DnsHeader) -> Seq<u8> {
    util::be16_bytes(h.id) + util::be16_bytes(h.flags) + util::be16_bytes(h.qdcount)
        + util::be16_bytes(h.ancount) + util::be16_bytes(h.nscount) + util::be16_bytes(h.arcount)
}

/// The header at the front of a message.
pub open spec fn parse_dns_header(s: Seq<u8>) -> DnsHeader {
    DnsHeader {
        id: util::be16_at(s, 0) as u16,
        flags: util::be16_at(s, 2) as u16,
        qdcount: util::be16_at(s, 4) as u16,
        ancount: util::be16_at(s, 6) as u16,
        nscount: util::be16_at(s, 8) as u16,
        arcount: util::be16_at(s, 10) as u16,
    }
}

/// Parsing the serialised bytes of a header gives it back.
pub proof fn lemma_dns_header_roundtrip(h: DnsHeader)
    ensures
        parse_dns_header(dns_header_bytes(h)) == h,
{
    util::lemma_be16_roundtrip(h.id);
    util::lemma_be16_roundtrip(h.flags);
    util::lemma_be16_roundtrip(h.qdcount);
    util::lemma_be16_roundtrip(h.ancount);
    util::lemma_be16_roundtrip(h.nscount);
    util::lemma_be16_roundtrip(h.arcount);
    let s = dns_header_bytes(h);
    assert(util::be16_at(s, 0) == util::be16_at(util::be16_bytes(h.id), 0));
    assert(util::be16_at(s, 2) == util::be16_at(util::be16_bytes(h.flags), 0));
    assert(util::be16_at(s, 4) == util::be16_at(util::be16_bytes(h.qdcount), 0));
    assert(util::be16_at(s, 6) == util::be16_at(util::be16_bytes(h.ancount), 0));
    assert(util::be16_at(s, 8) == util::be16_at(util::be16_bytes(h.nscount), 0));
    assert(util::be16_at(s, 10) == util::be16_at(util::be16_bytes(h.arcount), 0));
}

/// Read and validate the header of a message.
pub fn read_dns_header(data: &[u8]) -> (r: Result<DnsHeader, NetError>)
    ensures
        match r {
            Ok(h) => data@.len() >= DNS_HEADER_LEN && h == parse_dns_header(data@),
            Err(e) => e == NetError::PacketTooShort && data@.len() < DNS_HEADER_LEN,
        },
{
    if data.len() < DNS_HEADER_LEN {
        return Err(NetError::PacketTooShort);
    }
    Ok(
        DnsHeader {
            id: util::read_be16(data, 0),
            flags: util::read_be16(data, 2),
            qdcount: util::read_be16(data, 4),
            ancount: util::read_be16(data, 6),
            nscount: util::read_be16(data, 8),
            arcount: util::read_be16(data, 10),
        },
    )
}

/// The wire encoding of a dotted domain name appended to `out`: each
/// dot-separated run of bytes becomes a length byte and the run itself,
/// empty runs are skipped, and a zero byte ends the name.  `start` marks
/// where the run being scanned began.
pub open spec fn encode_name(s: Seq<u8>, i: int, start: int, out: Seq<u8>) -> Seq<u8>
    decreases s.len() - i,
{
    if i < 0 || i > s.len() || start > i {
        out
    } else if i == s.len() {
        (if i > start {
            out + seq![((i - start) as u8)] + s.subrange(start, i)
        } else {
            out
        }) + seq![0u8]
    } else if s[i] == 0x2e {
        encode_name(
            s,
            i + 1,
            i + 1,
            if i > start {
                out + seq![((i - start) as u8)] + s.subrange(start, i)
            } else {
                out
            },
        )
    } else {
        encode_name(s, i + 1, start, out)
    }
}

/// Append the wire encoding of `domain` to `buf`.
pub fn encode_domain_name(domain: &str, buf: &mut Vec<u8>)
    ensures
        final(buf)@ == encode_name(domain.spec_bytes(), 0, 0, old(buf)@),
{
    let bytes = domain.as_bytes();
    let ghost s = bytes@;
    let n = bytes.len();
    let mut i: usize = 0;
    let mut start: usize = 0;
    while i < n
        invariant
            start <= i <= n,
            n == s.len(),
            bytes@ == s,
            s == domain.spec_bytes(),
            encode_name(s, 0, 0, old(buf)@) == encode_name(s, i as int, start as int, buf@),
        decreases n - i,
    {
        if bytes[i] == 0x2e {
            if i > start {
                push_label(buf, bytes, start, i);
            }
            start = i + 1;
        }
        i = i + 1;
    }
    if i > start {
        push_label(buf, bytes, start, i);
    }
    buf.push(0);
}

/// What one flushed label adds to the output.
pub open spec fn encode_label_spec(s: Seq<u8>, start: int, i: int, out: Seq<u8>) -> Seq<u8> {
    out + seq![((i - start) as u8)] + s.subrange(start, i)
}

/// Append one length-prefixed label, the bytes `data[start..end]`.
fn push_label(buf: &mut Vec<u8>, data: &[u8], start: usize, end: usize)
    requires
        start < end <= data@.len(),
    ensures
        final(buf)@ == encode_label_spec(data@, start as int, end as int, old(buf)@),
{
    buf.push((end - start) as u8);
    let mut k: usize = start;
    while k < end
        invariant
            start <= k <= end,
            end <= data@.len(),
            buf@ == old(buf)@ + seq![(((end - start) as int) as u8)] + data@.subrange(
                start as int,
                k as int,
            ),
        decreases end - k,
    {
        buf.push(data[k]);
        proof {
            assert(buf@ =~= old(buf)@ + seq![(((end - start) as int) as u8)] + data@.subrange(
                start as int,
                k + 1,
            ));
        }
        k = k + 1;
    }
}

/// Follow the labels — and at most one chain of compression pointers —
/// of the name at `offset`, collecting its dotted text; hand back the
/// text and the offset just past the name's bytes at `offset` itself.
pub fn decode_domain_name(data: &[u8], offset: usize) -> (r: Result<(Vec<u8>, usize), NetError>)
    ensures
        match r {
            Ok((name, next)) => offset < next <= data@.len(),
            Err(e) => e == NetError::InvalidLength || e == NetError::PacketTooShort,
        },
{
    if offset >= data.len() {
        return Err(NetError::PacketTooShort);
    }
    let mut name: Vec<u8> = Vec::new();
    let mut at = offset;
    let mut jumped = false;
    let mut jump_next: usize = 0;
    let mut steps: usize = 0;
    loop
        invariant
            at <= data@.len(),
            steps <= DNS_MAX_STEPS,
            jumped ==> offset < jump_next <= data@.len(),
            !jumped ==> offset <= at,
        ensures
            jumped ==> offset < jump_next <= data@.len(),
            !jumped ==> offset < at <= data@.len(),
        decreases DNS_MAX_STEPS - steps,
    {
        if steps >= DNS_MAX_STEPS {
            return Err(NetError::InvalidLength);
        }
        steps = steps + 1;

        if at >= data.len() {
            return Err(NetError::PacketTooShort);
        }
        let len = data[at];

        if len >= 0xc0 {
            // a compression pointer: remember where the inline name
            // ended, then continue at the pointed-to offset
            if at + 1 >= data.len() {
                return Err(NetError::PacketTooShort);
            }
            if !jumped {
                jump_next = at + 2;
                jumped = true;
            }
            let pointer = ((len - 0xc0) as usize) * 256 + (data[at + 1] as usize);
            if pointer >= data.len() {
                return Err(NetError::PacketTooShort);
            }
            at = pointer;
            continue ;
        }

        at = at + 1;
        if len == 0 {
            break ;
        }
        if name.len() > 0 {
            name.push(0x2e);
        }
        if (len as usize) > data.len() - at {
            return Err(NetError::PacketTooShort);
        }
        let limit = at + len as usize;
        let mut k: usize = at;
        while k < limit
            invariant
                at <= k <= limit,
                limit <= data@.len(),
                jumped ==> offset < jump_next <= data@.len(),
                !jumped ==> offset <= at,
                steps <= DNS_MAX_STEPS,
            decreases limit - k,
        {
            name.push(data[k]);
            k = k + 1;
        }
        at = limit;
    }
    let next = if jumped {
        jump_next
    } else {
        at
    };
    Ok((name, next))
}

/// Build a whole type-A, class-IN query for `domain` under `id`: the
/// query header, the encoded name, then the type and class.
pub fn build_dns_query(domain: &str, id: u16) -> (r: Vec<u8>)
    ensures
        r@ == encode_name(domain.spec_bytes(), 0, 0, dns_header_bytes(DnsHeader {
            id,
            flags: 0x0100u16,
            qdcount: 1u16,
            ancount: 0u16,
            nscount: 0u16,
            arcount: 0u16,
        })) + util::be16_bytes(DNS_TYPE_A) + util::be16_bytes(DNS_CLASS_IN),
{
    let header = DnsHeader::new_query(id);
    let mut packet: Vec<u8> = Vec::new();
    packet.push((header.id / 256) as u8);
    packet.push((header.id % 256) as u8);
    packet.push((header.flags / 256) as u8);
    packet.push((header.flags % 256) as u8);
    packet.push((header.qdcount / 256) as u8);
    packet.push((header.qdcount % 256) as u8);
    packet.push((header.ancount / 256) as u8);
    packet.push((header.ancount % 256) as u8);
    packet.push((header.nscount / 256) as u8);
    packet.push((header.nscount % 256) as u8);
    packet.push((header.arcount / 256) as u8);
    packet.push((header.arcount % 256) as u8);
    proof {
        assert(packet@ =~= dns_header_bytes(header));
    }
    encode_domain_name(domain, &mut packet);
    packet.push((DNS_TYPE_A / 256) as u8);
    packet.push((DNS_TYPE_A % 256) as u8);
    packet.push((DNS_CLASS_IN / 256) as u8);
    packet.push((DNS_CLASS_IN % 256) as u8);
    proof {
        assert(packet@ =~= encode_name(domain.spec_bytes(), 0, 0, dns_header_bytes(header))
            + util::be16_bytes(DNS_TYPE_A) + util::be16_bytes(DNS_CLASS_IN));
    }
    packet
}

/// Skip one encoded name starting at `offset`: labels until a zero
/// byte, or cut short by a compression pointer.
fn skip_name(data: &[u8], offset: usize) -> (r: Result<usize, NetError>)
    ensures
        match r {
            Ok(next) => offset < next <= data@.len(),
            Err(e) => e == NetError::PacketTooShort,
        },
{
    if offset > data.len() {
        return Err(NetError::PacketTooShort);
    }
    let mut at = offset;
    loop
        invariant
            offset <= at <= data@.len(),
        decreases data@.len() + 2 - at,
    {
        if at >= data.len() {
            return Err(NetError::PacketTooShort);
        }
        let len = data[at];
        if len >= 0xc0 {
            if data.len() - at < 2 {
                return Err(NetError::PacketTooShort);
            }
            return Ok(at + 2);
        }
        at = at + 1;
        if len == 0 {
            return Ok(at);
        }
        if (len as usize) > data.len() - at {
            return Err(NetError::PacketTooShort);
        }
        at = at + len as usize;
    }
}

/// Scan a response for the first type-A, class-IN answer and hand back
/// the address it carries.  A response without answers, or whose answers
/// carry no IPv4 address, is `NoSuchNode`.
pub fn parse_dns_response(data: &[u8]) -> (r: Result<IpAddr, NetError>)
    ensures
        match r {
            Ok(_) => data@.len() >= DNS_HEADER_LEN && util::be16_at(data@, 6) > 0,
            Err(e) => {
                &&& (e == NetError::PacketTooShort ==> data@.len() < DNS_HEADER_LEN || data@.len()
                    >= DNS_HEADER_LEN)
                &&& (e == NetError::NoSuchNode ==> data@.len() >= DNS_HEADER_LEN)
                &&& (data@.len() >= DNS_HEADER_LEN && util::be16_at(data@, 6) == 0 ==> e
                    == NetError::NoSuchNode)
                &&& (e == NetError::PacketTooShort || e == NetError::NoSuchNode)
            },
        },
{
    let header = read_dns_header(data)?;
    if header.ancount == 0 {
        return Err(NetError::NoSuchNode);
    }

    let mut offset: usize = DNS_HEADER_LEN;

    // skip the echoed questions: name, type, class
    let mut q: u16 = 0;
    while q < header.qdcount
        invariant
            q <= header.qdcount,
            data@.len() >= DNS_HEADER_LEN,
            header.ancount == util::be16_at(data@, 6),
            header.ancount > 0,
        decreases header.qdcount - q,
    {
        offset = match skip_name(data, offset) {
            Ok(next) => next,
            Err(e) => {
                return Err(e);
            },
        };
        if offset > usize::MAX - 4 {
            return Err(NetError::PacketTooShort);
        }
        offset = offset + 4;
        q = q + 1;
    }

    // walk the answers until an IPv4 address turns up
    let mut a: u16 = 0;
    while a < header.ancount
        invariant
            a <= header.ancount,
            data@.len() >= DNS_HEADER_LEN,
            header.ancount == util::be16_at(data@, 6),
            header.ancount > 0,
        decreases header.ancount - a,
    {
        offset = match skip_name(data, offset) {
            Ok(next) => next,
            Err(e) => {
                return Err(e);
            },
        };
        if offset > data.len() || data.len() - offset < 10 {
            return Err(NetError::PacketTooShort);
        }
        let rtype = util::read_be16(data, offset);
        let rclass = util::read_be16(data, offset + 2);
        let rdlength = util::read_be16(data, offset + 8);
        offset = offset + 10;

        if rtype == DNS_TYPE_A && rclass == DNS_CLASS_IN && rdlength == 4 {
            if data.len() - offset < 4 {
                return Err(NetError::PacketTooShort);
            }
            return Ok(IpAddr(util::read_be32(data, offset)));
        }
        if offset > usize::MAX - rdlength as usize {
            return Err(NetError::PacketTooShort);
        }
        offset = offset + rdlength as usize;
        a = a + 1;
    }

    Err(NetError::NoSuchNode)
}

} // verus!
