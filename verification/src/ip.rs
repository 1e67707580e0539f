//! IPv4 addresses, header codec, and ingress validation.

use vstd::prelude::*;

use crate::err::NetError;
use crate::util;
use vstd::string::StringSliceAdditionalSpecFns;

verus! {

/// The loopback address 127.0.0.1, as a host-order word.
pub const LOOPBACK_BITS: u32 = 0x7f00_0001;

/// A 32-bit IPv4 address held in host byte order; it is serialised
/// big-endian on the wire.  The zero address means "any".
#[derive(Debug, Clone, Copy, PartialEq, Eq, Structural)]
pub struct IpAddr(pub u32);

impl IpAddr {
    /// Build an address from its four dotted-quad bytes.
    pub fn new(a: u8, b: u8, c: u8, d: u8) -> (r: Self)
        ensures
            r.0 == (a as int) * 0x1000000 + (b as int) * 0x10000 + (c as int) * 256 + (d as int),
    {
        IpAddr(
            (a as u32) * 0x1000000 + (b as u32) * 0x10000 + (c as u32) * 256 + (d as u32),
        )
    }

    /// The four bytes of the address, in wire (big-endian) order.
    pub fn to_bytes(self) -> (r: [u8; 4])
        ensures
            r@ == util::be32_bytes(self.0),
    {
        let v = self.0;
        let r = [
            (v / 0x1000000) as u8,
            (v / 0x10000 % 256) as u8,
            (v / 256 % 256) as u8,
            (v % 256) as u8,
        ];
        proof {
            assert(r@ =~= util::be32_bytes(self.0));
        }
        r
    }

    /// The loopback address 127.0.0.1.
    pub fn loopback() -> (r: Self)
        ensures
            r.0 == LOOPBACK_BITS,
    {
        IpAddr(LOOPBACK_BITS)
    }
}

pub const PROTO_ICMP: u8 = 1;

pub const PROTO_TCP: u8 = 6;

pub const PROTO_UDP: u8 = 17;

/// The fixed 20-byte IPv4 header, with every field in host order.
#[derive(Debug, Clone, Copy, PartialEq, Eq, Structural)]
pub struct IpHeader {
    /// Version in the high nibble, header length in 32-bit words in the low.
    pub version_ihl: u8,
    pub tos: u8,
    pub total_len: u16,
    pub id: u16,
    pub flags_offset: u16,
    pub ttl: u8,
    pub protocol: u8,
    pub checksum: u16,
    pub src: u32,
    pub dst: u32,
}

impl IpHeader {
    /// The version nibble.
    pub open spec fn version_spec(self) -> u8 {
        self.version_ihl / 16
    }

    pub fn version(&self) -> (r: u8)
        ensures
            r == self.version_spec(),
    {
        self.version_ihl / 16
    }

    /// The header length in 32-bit words.
    pub open spec fn ihl_spec(self) -> u8 {
        self.version_ihl % 16
    }

    pub fn ihl(&self) -> (r: u8)
        ensures
            r == self.ihl_spec(),
    {
        self.version_ihl % 16
    }

    /// The header length in bytes.
    pub open spec fn header_len_spec(self) -> int {
        self.ihl_spec() * 4
    }

    pub fn header_len(&self) -> (r: usize)
        ensures
            r == self.header_len_spec(),
    {
        (self.version_ihl % 16) as usize * 4
    }
}

/// The header an IPv4 buffer starts with, field by field.
pub open spec fn parse_ip_header(s: Seq<u8>) -> IpHeader {
    IpHeader {
        version_ihl: s[0],
        tos: s[1],
        total_len: util::be16_at(s, 2) as u16,
        id: util::be16_at(s, 4) as u16,
        flags_offset: util::be16_at(s, 6) as u16,
        ttl: s[8],
        protocol: s[9],
        checksum: util::be16_at(s, 10) as u16,
        src: util::be32_at(s, 12) as u32,
        dst: util::be32_at(s, 16) as u32,
    }
}

/// An ingress buffer passes validation when it is long enough, is version
/// four, declares a header that fits, carries a header checksum of zero,
/// and declares a total length that fits the header and the buffer.
pub open spec fn ip_input_ok(s: Seq<u8>) -> bool {
    let h = parse_ip_header(s);
    &&& s.len() >= 20
    &&& h.version_spec() == 4
    &&& 20 <= h.header_len_spec() <= s.len()
    &&& util::checksum_spec(s.subrange(0, h.header_len_spec())) == 0
    &&& h.total_len <= s.len()
    &&& h.header_len_spec() <= h.total_len
}

/// The error ingress validation reports, checked in order.
pub open spec fn ip_input_err(s: Seq<u8>) -> NetError {
    let h = parse_ip_header(s);
    if s.len() < 20 {
        NetError::PacketTooShort
    } else if h.version_spec() != 4 {
        NetError::InvalidVersion
    } else if !(20 <= h.header_len_spec() <= s.len()) {
        NetError::InvalidHeaderLen
    } else if util::checksum_spec(s.subrange(0, h.header_len_spec())) != 0 {
        NetError::ChecksumError
    } else if h.total_len > s.len() {
        NetError::PacketTruncated
    } else {
        NetError::InvalidLength
    }
}

/// Validate an IPv4 ingress buffer and parse its header.
pub fn ip_validate(data: &[u8]) -> (r: Result<IpHeader, NetError>)
    ensures
        match r {
            Ok(h) => ip_input_ok(data@) && h == parse_ip_header(data@),
            Err(e) => !ip_input_ok(data@) && e == ip_input_err(data@),
        },
{
    if data.len() < 20 {
        return Err(NetError::PacketTooShort);
    }
    let version_ihl = data[0];
    if version_ihl / 16 != 4 {
        return Err(NetError::InvalidVersion);
    }
    let hlen = (version_ihl % 16) as usize * 4;
    if hlen < 20 || hlen > data.len() {
        return Err(NetError::InvalidHeaderLen);
    }
    let header_slice = vstd::slice::slice_subrange(data, 0, hlen);
    if !util::verify_checksum(header_slice) {
        return Err(NetError::ChecksumError);
    }
    let total_len = util::read_be16(data, 2) as usize;
    if total_len > data.len() {
        return Err(NetError::PacketTruncated);
    }
    if total_len < hlen {
        return Err(NetError::InvalidLength);
    }
    Ok(
        IpHeader {
            version_ihl,
            tos: data[1],
            total_len: util::read_be16(data, 2),
            id: util::read_be16(data, 4),
            flags_offset: util::read_be16(data, 6),
            ttl: data[8],
            protocol: data[9],
            checksum: util::read_be16(data, 10),
            src: util::read_be32(data, 12),
            dst: util::read_be32(data, 16),
        },
    )
}

/// The bytes of a freshly built egress header: version 4, no options,
/// `ttl` 64, zero id and flags, and `cks` in the checksum field.
pub open spec fn ip_header_bytes(src: IpAddr, dst: IpAddr, protocol: u8, total_len: u16, cks: u16) -> Seq<u8> {
    seq![0x45u8, 0u8] + util::be16_bytes(total_len) + seq![0u8, 0u8, 0u8, 0u8, 64u8, protocol]
        + util::be16_bytes(cks) + util::be32_bytes(src.0) + util::be32_bytes(dst.0)
}

/// A well-formed egress packet around `payload`: a valid fixed header
/// declaring exactly the packet's length, protocol and addresses, whose
/// checksum verifies, followed by the payload itself.
#[verifier::opaque]
pub open spec fn is_ip_packet(b: Seq<u8>, src: IpAddr, dst: IpAddr, protocol: u8, payload: Seq<u8>) -> bool {
    &&& b.len() == 20 + payload.len()
    &&& b.subrange(20, b.len() as int) == payload
    &&& parse_ip_header(b).version_spec() == 4
    &&& parse_ip_header(b).header_len_spec() == 20
    &&& parse_ip_header(b).total_len == b.len()
    &&& parse_ip_header(b).protocol == protocol
    &&& parse_ip_header(b).src == src.0
    &&& parse_ip_header(b).dst == dst.0
    &&& util::checksum_spec(b.subrange(0, 20)) == 0
    &&& ip_input_ok(b)
}

/// Build an IPv4 packet around `payload`: a 20-byte header with a filled
/// checksum, then the payload.  `PacketTooLarge` past 65535 bytes.
#[verifier::rlimit(50)]
pub fn build_ipv4_packet(src: IpAddr, dst: IpAddr, protocol: u8, payload: &[u8]) -> (r: Result<
    Vec<u8>,
    NetError,
>)
    ensures
        match r {
            Ok(v) => {
                &&& payload@.len() + 20 <= 65535
                &&& v@.len() == 20 + payload@.len()
                &&& v@.subrange(20, v@.len() as int) == payload@
                &&& ({
                    let zeroed = ip_header_bytes(
                        src,
                        dst,
                        protocol,
                        (20 + payload@.len()) as u16,
                        0,
                    );
                    let c = util::checksum_spec(zeroed) as u16;
                    v@.subrange(0, 20) == ip_header_bytes(
                        src,
                        dst,
                        protocol,
                        (20 + payload@.len()) as u16,
                        c,
                    )
                })
                &&& util::checksum_spec(v@.subrange(0, 20)) == 0
                &&& is_ip_packet(v@, src, dst, protocol, payload@)
            },
            Err(e) => e == NetError::PacketTooLarge && payload@.len() + 20 > 65535,
        },
{
    if payload.len() > 65535 - 20 {
        return Err(NetError::PacketTooLarge);
    }
    let total_len: u16 = (20 + payload.len()) as u16;
    let mut header: Vec<u8> = Vec::new();
    header.push(0x45);
    header.push(0);
    header.push((total_len / 256) as u8);
    header.push((total_len % 256) as u8);
    header.push(0);
    header.push(0);
    header.push(0);
    header.push(0);
    header.push(64);
    header.push(protocol);
    header.push(0);
    header.push(0);
    let s = src.0;
    header.push((s / 0x1000000) as u8);
    header.push((s / 0x10000 % 256) as u8);
    header.push((s / 256 % 256) as u8);
    header.push((s % 256) as u8);
    let d = dst.0;
    header.push((d / 0x1000000) as u8);
    header.push((d / 0x10000 % 256) as u8);
    header.push((d / 256 % 256) as u8);
    header.push((d % 256) as u8);
    let ghost zeroed = ip_header_bytes(src, dst, protocol, total_len, 0);
    proof {
        reveal(is_ip_packet);
        assert(header@ =~= zeroed);
        util::lemma_ones_fold_bounds(zeroed, 0, 0);
    }
    let c: u16 = util::checksum(header.as_slice());
    util::write_be16(&mut header, 10, c);
    proof {
        util::lemma_checksum_insert(zeroed, 10);
        assert(header@ =~= zeroed.update(10, (c / 256) as u8).update(11, (c % 256) as u8));
        assert(header@ =~= ip_header_bytes(src, dst, protocol, total_len, c));
    }
    let ghost header_bytes = header@;
    let mut packet = header;
    packet.extend_from_slice(payload);
    proof {
        assert(packet@.subrange(0, 20) =~= header_bytes);
        assert(packet@.subrange(20, packet@.len() as int) =~= payload@);
    }
    Ok(packet)
}

} // verus!

verus! {

/// Parsing a freshly built egress header gives back exactly the fields
/// that were written.
pub proof fn lemma_ip_header_roundtrip(src: IpAddr, dst: IpAddr, protocol: u8, total_len: u16, cks: u16)
    ensures
        ({
            let h = parse_ip_header(ip_header_bytes(src, dst, protocol, total_len, cks));
            &&& h.version_spec() == 4
            &&& h.ihl_spec() == 5
            &&& h.tos == 0
            &&& h.total_len == total_len
            &&& h.id == 0
            &&& h.flags_offset == 0
            &&& h.ttl == 64
            &&& h.protocol == protocol
            &&& h.checksum == cks
            &&& h.src == src.0
            &&& h.dst == dst.0
        }),
{
    util::lemma_be16_roundtrip(total_len);
    util::lemma_be16_roundtrip(cks);
    util::lemma_be32_roundtrip(src.0);
    util::lemma_be32_roundtrip(dst.0);
    let s = ip_header_bytes(src, dst, protocol, total_len, cks);
    assert(util::be16_at(s, 2) == util::be16_at(util::be16_bytes(total_len), 0));
    assert(util::be16_at(s, 10) == util::be16_at(util::be16_bytes(cks), 0));
    assert(util::be32_at(s, 12) == util::be32_at(util::be32_bytes(src.0), 0));
    assert(util::be32_at(s, 16) == util::be32_at(util::be32_bytes(dst.0), 0));
}

} // verus!

verus! {

/// Scan a dotted-quad string: `acc` and `digits` describe the component
/// being read, `parts` the components already read.  A component is one
/// to three digits, at most 255; anything else fails the whole scan.
pub open spec fn quad_scan(s: Seq<u8>, i: int, acc: int, digits: int, parts: Seq<u8>) -> Option<
    Seq<u8>,
>
    decreases s.len() - i,
{
    if i < 0 || i > s.len() {
        None
    } else if i == s.len() {
        if 1 <= digits <= 3 && acc <= 255 {
            Some(parts.push(acc as u8))
        } else {
            None
        }
    } else if s[i] == 0x2e {
        if 1 <= digits <= 3 && acc <= 255 {
            quad_scan(s, i + 1, 0, 0, parts.push(acc as u8))
        } else {
            None
        }
    } else if 0x30 <= s[i] <= 0x39 && digits < 3 {
        quad_scan(s, i + 1, acc * 10 + (s[i] - 0x30), digits + 1, parts)
    } else {
        None
    }
}

/// A component that has already outgrown 255 can never finish the scan.
proof fn lemma_quad_scan_overflow(s: Seq<u8>, i: int, acc: int, digits: int, parts: Seq<u8>)
    requires
        acc > 255,
    ensures
        quad_scan(s, i, acc, digits, parts) is None,
    decreases s.len() - i,
{
    if 0 <= i < s.len() && !(s[i] == 0x2e) && 0x30 <= s[i] <= 0x39 && digits < 3 {
        lemma_quad_scan_overflow(s, i + 1, acc * 10 + (s[i] - 0x30), digits + 1, parts);
    }
}

/// The address a dotted-quad string denotes, if it is well formed:
/// exactly four components joined by dots.
pub open spec fn parse_quad(s: Seq<u8>) -> Option<u32> {
    match quad_scan(s, 0, 0, 0, Seq::empty()) {
        Some(parts) => {
            if parts.len() == 4 {
                Some(
                    ((parts[0] as int) * 0x1000000 + (parts[1] as int) * 0x10000 + (
                    parts[2] as int) * 256 + (parts[3] as int)) as u32,
                )
            } else {
                None
            }
        },
        None => None,
    }
}

/// Parse a dotted-quad address such as `10.0.0.1`; anything malformed is
/// `InvalidAddress`.
pub fn parse_ip_str(s: &str) -> (r: Result<IpAddr, NetError>)
    ensures
        match r {
            Ok(a) => parse_quad(s.spec_bytes()) == Some(a.0),
            Err(e) => e == NetError::InvalidAddress && parse_quad(s.spec_bytes()) is None,
        },
{
    let bytes = s.as_bytes();
    let ghost sq = bytes@;
    let n = bytes.len();
    let mut i: usize = 0;
    let mut acc: u32 = 0;
    let mut digits: u8 = 0;
    let mut parts: Vec<u8> = Vec::new();
    while i < n
        invariant
            i <= n,
            n == sq.len(),
            bytes@ == sq,
            sq == s.spec_bytes(),
            acc <= 255,
            digits <= 3,
            quad_scan(sq, 0, 0, 0, Seq::empty()) == quad_scan(
                sq,
                i as int,
                acc as int,
                digits as int,
                parts@,
            ),
        decreases n - i,
    {
        let b = bytes[i];
        if b == 0x2e {
            if digits < 1 {
                return Err(NetError::InvalidAddress);
            }
            parts.push(acc as u8);
            acc = 0;
            digits = 0;
        } else if 0x30 <= b && b <= 0x39 {
            if digits >= 3 {
                return Err(NetError::InvalidAddress);
            }
            let next = acc * 10 + (b - 0x30) as u32;
            if next > 255 {
                proof {
                    lemma_quad_scan_overflow(
                        sq,
                        i + 1,
                        next as int,
                        digits as int + 1,
                        parts@,
                    );
                }
                return Err(NetError::InvalidAddress);
            }
            acc = next;
            digits = digits + 1;
        } else {
            return Err(NetError::InvalidAddress);
        }
        i = i + 1;
    }
    if digits < 1 {
        return Err(NetError::InvalidAddress);
    }
    parts.push(acc as u8);
    if parts.len() != 4 {
        return Err(NetError::InvalidAddress);
    }
    Ok(IpAddr::new(parts[0], parts[1], parts[2], parts[3]))
}

} // verus!
